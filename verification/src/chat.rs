//! The terminal chat with a local model: transcript, slash commands, tool
//! calls found in the model's replies, and the permission layer that decides
//! which calls run on their own and which wait for the user.
//!
//! The chat never waits on anything itself. What it wants done (stream a
//! reply, run a tool) it leaves in its outbox; whoever drives it does that
//! work and reports back through the `on_*` events.

use vstd::prelude::*;
use crate::json::{json_member_text, json_str_member, member_text, str_member};
use crate::text::{chars_of, decimal, push_char, push_decimal, push_range, push_str, string_of_range, trim, words};
use crate::tools::{ToolInfo, ToolRequest, ToolResult, ToolSafety};
use crate::types::{Effort, PermMode};

verus! {

/// Tool calls allowed per user turn, to stop runaway agent loops.
pub const MAX_ROUNDS: u32 = 8;

// ── Ordered names ──────────────────────────────────────────────────────────

/// Lexicographic order on characters by code point: the order of `str`.
pub open spec fn lex_lt(a: Seq<char>, b: Seq<char>) -> bool
    decreases a.len(),
{
    if a.len() == 0 {
        b.len() > 0
    } else if b.len() == 0 {
        false
    } else if a[0] != b[0] {
        (a[0] as u32) < (b[0] as u32)
    } else {
        lex_lt(a.drop_first(), b.drop_first())
    }
}

pub proof fn lemma_lex_total(a: Seq<char>, b: Seq<char>)
    ensures
        a != b ==> lex_lt(a, b) || lex_lt(b, a),
        !(lex_lt(a, b) && lex_lt(b, a)),
        !lex_lt(a, a),
    decreases a.len(),
{
    if a.len() > 0 && b.len() > 0 && a[0] == b[0] {
        lemma_lex_total(a.drop_first(), b.drop_first());
        if a.drop_first() == b.drop_first() {
            assert(a =~= seq![a[0]] + a.drop_first());
            assert(b =~= seq![b[0]] + b.drop_first());
        }
    }
    if a.len() > 0 {
        lemma_lex_total(a.drop_first(), a.drop_first());
    }
    if a.len() == 0 && b.len() == 0 {
        assert(a =~= b);
    }
    if a.len() > 0 && b.len() > 0 && a[0] != b[0] {
        vstd::utf8::char_u32_cast(a[0], a[0] as u32);
        vstd::utf8::char_u32_cast(b[0], b[0] as u32);
    }
}

pub proof fn lemma_lex_trans(a: Seq<char>, b: Seq<char>, c: Seq<char>)
    requires
        lex_lt(a, b),
        lex_lt(b, c),
    ensures
        lex_lt(a, c),
    decreases a.len(),
{
    if a.len() > 0 && b.len() > 0 && c.len() > 0 && a[0] == b[0] && b[0] == c[0] {
        lemma_lex_trans(a.drop_first(), b.drop_first(), c.drop_first());
    }
}

pub(crate) fn lex_less(a: &str, b: &str) -> (r: bool)
    ensures
        r == lex_lt(a@, b@),
{
    let x = chars_of(a);
    let y = chars_of(b);
    let mut i: usize = 0;
    assert(x@.skip(0) =~= x@);
    assert(y@.skip(0) =~= y@);
    while i < x.len() && i < y.len() && x[i] == y[i]
        invariant
            i <= x@.len(),
            i <= y@.len(),
            lex_lt(x@, y@) == lex_lt(x@.skip(i as int), y@.skip(i as int)),
        decreases x@.len() - i,
    {
        assert(x@.skip(i as int).drop_first() =~= x@.skip(i + 1));
        assert(y@.skip(i as int).drop_first() =~= y@.skip(i + 1));
        i = i + 1;
    }
    assert(x@.skip(0) =~= x@);
    assert(y@.skip(0) =~= y@);
    if i == x.len() {
        i < y.len()
    } else if i == y.len() {
        false
    } else {
        (x[i] as u32) < (y[i] as u32)
    }
}

// ── Permissions ────────────────────────────────────────────────────────────

/// The user's standing tool permissions.
pub struct Perms {
    /// Tools the user chose "always allow" for, in increasing order.
    always: Vec<String>,
    /// Bypass every prompt.
    pub allow_all: bool,
}

impl Perms {
    /// Is every prompt bypassed?
    pub closed spec fn bypass(self) -> bool {
        self.allow_all
    }

    /// The always-allowed tool names, in increasing order.
    pub closed spec fn names(self) -> Seq<Seq<char>> {
        self.always@.map_values(|s: String| s@)
    }

    pub closed spec fn wf(self) -> bool {
        forall|i: int, j: int| 0 <= i < j < self.always@.len() ==> lex_lt(#[trigger] self.always@[i]@, #[trigger] self.always@[j]@)
    }

    /// The names are strictly increasing, so each is there once.
    pub proof fn lemma_sorted(self)
        requires
            self.wf(),
        ensures
            forall|i: int, j: int| 0 <= i < j < self.names().len() ==> lex_lt(#[trigger] self.names()[i], #[trigger] self.names()[j]),
    {
        assert forall|i: int, j: int| 0 <= i < j < self.names().len() implies lex_lt(#[trigger] self.names()[i], #[trigger] self.names()[j]) by {
            assert(self.names()[i] == self.always@[i]@);
            assert(self.names()[j] == self.always@[j]@);
        }
    }

    pub fn new() -> (r: Perms)
        ensures
            r.wf(),
            r.names() == Seq::<Seq<char>>::empty(),
            !r.bypass(),
    {
        let r = Perms { always: Vec::new(), allow_all: false };
        assert(r.names() =~= Seq::<Seq<char>>::empty());
        r
    }

    /// May `tool` run without asking?
    pub fn allowed(&self, tool: &str) -> (r: bool)
        ensures
            r == (self.bypass() || self.names().contains(tool@)),
    {
        if self.allow_all {
            return true;
        }
        let mut i: usize = 0;
        while i < self.always.len()
            invariant
                i <= self.always@.len(),
                forall|k: int| 0 <= k < i ==> self.always@[k]@ != tool@,
            decreases self.always@.len() - i,
        {
            if crate::text::str_eq(self.always[i].as_str(), tool) {
                assert(self.names()[i as int] == tool@);
                return true;
            }
            i = i + 1;
        }
        proof {
            if self.names().contains(tool@) {
                let ns = self.names();
                let k = choose|k: int| 0 <= k < ns.len() && #[trigger] ns[k] == tool@;
                assert(self.always@[k]@ == tool@);
            }
        }
        false
    }

    /// Always allows `tool` from now on.
    pub fn allow(&mut self, tool: String)
        requires
            old(self).wf(),
        ensures
            final(self).wf(),
            final(self).names().to_set() == old(self).names().to_set().insert(tool@),
            final(self).bypass() == old(self).bypass(),
    {
        let n = self.always.len();
        let mut i: usize = 0;
        while i < n && lex_less(self.always[i].as_str(), tool.as_str())
            invariant
                n == self.always@.len(),
                i <= n,
                forall|k: int| 0 <= k < i ==> lex_lt(#[trigger] self.always@[k]@, tool@),
            decreases n - i,
        {
            i = i + 1;
        }
        let ghost ns = self.names();
        if i < n && crate::text::str_eq(self.always[i].as_str(), tool.as_str()) {
            assert(ns[i as int] == tool@);
            assert(ns.to_set().insert(tool@) =~= ns.to_set());
            return;
        }
        proof {
            if i < n {
                lemma_lex_total(self.always@[i as int]@, tool@);
            }
        }
        let ghost t = tool@;
        let ghost old_always = self.always@;
        self.always.insert(i, tool);
        proof {
            assert(self.always@ =~= old_always.take(i as int).push(tool).add(old_always.skip(i as int)));
            assert forall|a: int, b: int| 0 <= a < b < self.always@.len() implies lex_lt(#[trigger] self.always@[a]@, #[trigger] self.always@[b]@) by {
                if b < i {
                } else if b == i {
                    assert(self.always@[a] == old_always[a]);
                } else if a == i {
                    assert(self.always@[b] == old_always[b - 1]);
                    if b - 1 > i {
                        lemma_lex_trans(t, old_always[i as int]@, old_always[b - 1]@);
                    }
                } else if a < i {
                    assert(self.always@[b] == old_always[b - 1]);
                } else {
                    assert(self.always@[a] == old_always[a - 1]);
                    assert(self.always@[b] == old_always[b - 1]);
                }
            }
            assert(self.names() =~= ns.take(i as int).push(t) + ns.skip(i as int));
            assert forall|x: Seq<char>| self.names().contains(x) <==> ns.to_set().insert(t).contains(x) by {
                if self.names().contains(x) {
                    let k = choose|k: int| 0 <= k < self.names().len() && self.names()[k] == x;
                    if k < i {
                        assert(ns[k] == x);
                    } else if k > i {
                        assert(ns[k - 1] == x);
                    }
                }
                if ns.contains(x) {
                    let k = choose|k: int| 0 <= k < ns.len() && ns[k] == x;
                    if k < i {
                        assert(self.names()[k] == x);
                    } else {
                        assert(self.names()[k + 1] == x);
                    }
                }
                if x == t {
                    assert(self.names()[i as int] == t);
                }
            }
            assert(self.names().to_set() =~= ns.to_set().insert(t));
        }
    }

    /// Forgets every always-allowed tool.
    pub fn clear(&mut self)
        ensures
            final(self).wf(),
            final(self).names() == Seq::<Seq<char>>::empty(),
            final(self).bypass() == old(self).bypass(),
    {
        self.always = Vec::new();
        assert(self.names() =~= Seq::<Seq<char>>::empty());
    }

    /// Are there no always-allowed tools?
    pub fn none_always(&self) -> (r: bool)
        ensures
            r == (self.names().len() == 0),
    {
        self.always.len() == 0
    }

    /// The always-allowed names, joined with `", "`.
    pub fn joined(&self) -> (r: String)
        ensures
            r@ == crate::text::join(self.names(), ", "@),
    {
        let mut s = String::new();
        let mut i: usize = 0;
        while i < self.always.len()
            invariant
                i <= self.always@.len(),
                s@ == crate::text::join(self.names().take(i as int), ", "@),
            decreases self.always@.len() - i,
        {
            if i > 0 {
                push_str(&mut s, ", ");
            }
            push_str(&mut s, self.always[i].as_str());
            i = i + 1;
            proof {
                let ns = self.names().take(i as int);
                assert(ns.drop_last() =~= self.names().take(i - 1));
                assert(ns.last() == self.always@[i - 1]@);
                if i == 1 {
                    assert(self.names().take(0) =~= Seq::<Seq<char>>::empty());
                }
                assert(s@ =~= crate::text::join(ns, ", "@));
            }
        }
        assert(self.names().take(self.always@.len() as int) =~= self.names());
        s
    }
}

impl Default for Perms {
    fn default() -> (r: Perms)
        ensures
            r.wf(),
            r.names() == Seq::<Seq<char>>::empty(),
            !r.bypass(),
    {
        Perms::new()
    }
}

// ── Messages ───────────────────────────────────────────────────────────────

/// Who said it.
#[derive(Debug, Clone, Copy, PartialEq, Eq, Structural)]
pub enum Role {
    User,
    Assistant,
    /// LlamaChat itself (slash-command output, notices).
    System,
    /// A tool result: shown as a result block, sent to the model as context.
    Tool,
}

#[derive(Debug, Clone)]
pub struct Message {
    pub role: Role,
    pub content: String,
    /// Tool name, for `Role::Tool` messages.
    pub tool: Option<String>,
}

/// A message as plain values.
pub open spec fn mv(m: Message) -> (Role, Seq<char>, Option<Seq<char>>) {
    (m.role, m.content@, match m.tool { Some(t) => Some(t@), None => None })
}

impl Message {
    pub fn user(s: String) -> (r: Message)
        ensures
            mv(r) == (Role::User, s@, None::<Seq<char>>),
    {
        Message { role: Role::User, content: s, tool: None }
    }

    pub fn assistant(s: String) -> (r: Message)
        ensures
            mv(r) == (Role::Assistant, s@, None::<Seq<char>>),
    {
        Message { role: Role::Assistant, content: s, tool: None }
    }

    pub fn system(s: String) -> (r: Message)
        ensures
            mv(r) == (Role::System, s@, None::<Seq<char>>),
    {
        Message { role: Role::System, content: s, tool: None }
    }

    pub fn tool(name: String, s: String) -> (r: Message)
        ensures
            mv(r) == (Role::Tool, s@, Some(name@)),
    {
        Message { role: Role::Tool, content: s, tool: Some(name) }
    }
}

/// A slash command shown in the `/` palette.
#[derive(Debug, Clone, Copy)]
pub struct SlashCmd {
    pub name: &'static str,
    pub desc: &'static str,
}

/// The slash commands, in palette order.
pub open spec fn slash_list() -> Seq<(Seq<char>, Seq<char>)> {
    seq![
        ("help"@, "Show commands and keys"@),
        ("commands"@, "List all slash commands"@),
        ("tools"@, "Show tools the model can use (on/off)"@),
        ("permissions"@, "View or change tool permissions / mode"@),
        ("effort"@, "Set reasoning effort (low/medium/high/max)"@),
        ("clear"@, "Clear this conversation"@),
        ("retry"@, "Regenerate the last reply"@),
        ("model"@, "Back to the model list"@),
        ("status"@, "Show session status"@),
        ("quit"@, "Quit LlamaChat"@),
        ("mode"@, "Set permission mode (same as Shift+Tab)"@),
    ]
}

/// The slash commands.
pub fn slash_commands() -> (r: Vec<SlashCmd>)
    ensures
        r@.len() == slash_list().len(),
        forall|i: int| 0 <= i < r@.len() ==> (#[trigger] r@[i]).name@ == slash_list()[i].0 && r@[i].desc@ == slash_list()[i].1,
{
    vec![
        SlashCmd { name: "help", desc: "Show commands and keys" },
        SlashCmd { name: "commands", desc: "List all slash commands" },
        SlashCmd { name: "tools", desc: "Show tools the model can use (on/off)" },
        SlashCmd { name: "permissions", desc: "View or change tool permissions / mode" },
        SlashCmd { name: "effort", desc: "Set reasoning effort (low/medium/high/max)" },
        SlashCmd { name: "clear", desc: "Clear this conversation" },
        SlashCmd { name: "retry", desc: "Regenerate the last reply" },
        SlashCmd { name: "model", desc: "Back to the model list" },
        SlashCmd { name: "status", desc: "Show session status" },
        SlashCmd { name: "quit", desc: "Quit LlamaChat" },
        SlashCmd { name: "mode", desc: "Set permission mode (same as Shift+Tab)" },
    ]
}

/// What a submitted slash command asks the app to do.
#[derive(Debug, Clone, Copy, PartialEq, Eq, Structural)]
pub enum ChatAction {
    /// Stay in the chat.
    Stay,
    /// Back to the model list.
    Back,
    Quit,
}

/// A tool result condensed for the model and the transcript: the trimmed
/// output, else the error, else a placeholder.
pub open spec fn summary_of(r: ToolResult) -> Seq<char> {
    match r.output {
        Some(o) => if trim(o@).len() == 0 { "(no output)"@ } else { trim(o@) },
        None => match r.error {
            Some(e) => "error: "@ + e@,
            None => "(no output)"@,
        },
    }
}

pub fn summarize(result: &ToolResult) -> (r: String)
    ensures
        r@ == summary_of(*result),
{
    match &result.output {
        Some(out) => {
            let t = crate::text::trimmed(out.as_str());
            if t.as_str().is_empty() {
                String::from_str("(no output)")
            } else {
                t
            }
        }
        None => match &result.error {
            Some(err) => {
                let mut s = String::from_str("error: ");
                push_str(&mut s, err.as_str());
                s
            }
            None => String::from_str("(no output)"),
        },
    }
}

// ── Tool calls in model output ─────────────────────────────────────────────

/// Where the `{` at index `start` of `s` is closed, counting braces outside
/// JSON strings (a backslash escapes the next character inside a string);
/// `depth`, `in_str` and `esc` are the scan's state at index `j`.
pub open spec fn close_from(s: Seq<char>, j: int, depth: nat, in_str: bool, esc: bool) -> Option<int>
    decreases s.len() - j,
{
    if j < 0 || j >= s.len() {
        None
    } else {
        let c = s[j];
        if in_str {
            if esc {
                close_from(s, j + 1, depth, true, false)
            } else if c == '\\' {
                close_from(s, j + 1, depth, true, true)
            } else if c == '"' {
                close_from(s, j + 1, depth, false, false)
            } else {
                close_from(s, j + 1, depth, true, false)
            }
        } else if c == '"' {
            close_from(s, j + 1, depth, true, false)
        } else if c == '{' {
            close_from(s, j + 1, depth + 1, false, false)
        } else if c == '}' {
            if depth <= 1 {
                Some(j)
            } else {
                close_from(s, j + 1, (depth - 1) as nat, false, false)
            }
        } else {
            close_from(s, j + 1, depth, false, false)
        }
    }
}

/// The index of the `}` that closes the object opened at `start`.
pub open spec fn closing_brace(s: Seq<char>, start: int) -> Option<int> {
    close_from(s, start, 0, false, false)
}

pub proof fn lemma_close_from_bounds(s: Seq<char>, j: int, depth: nat, in_str: bool, esc: bool)
    ensures
        close_from(s, j, depth, in_str, esc) matches Some(k) ==> j <= k < s.len() && s[k] == '}',
    decreases s.len() - j,
{
    if 0 <= j < s.len() {
        let c = s[j];
        if in_str {
            if esc {
                lemma_close_from_bounds(s, j + 1, depth, true, false);
            } else if c == '\\' {
                lemma_close_from_bounds(s, j + 1, depth, true, true);
            } else if c == '"' {
                lemma_close_from_bounds(s, j + 1, depth, false, false);
            } else {
                lemma_close_from_bounds(s, j + 1, depth, true, false);
            }
        } else if c == '"' {
            lemma_close_from_bounds(s, j + 1, depth, true, false);
        } else if c == '{' {
            lemma_close_from_bounds(s, j + 1, depth + 1, false, false);
        } else if c == '}' {
            if depth > 1 {
                lemma_close_from_bounds(s, j + 1, (depth - 1) as nat, false, false);
            }
        } else {
            lemma_close_from_bounds(s, j + 1, depth, false, false);
        }
    }
}

/// Scans `v` from `start` for the brace that closes the object opened there.
pub fn find_closing(v: &Vec<char>, start: usize) -> (r: Option<usize>)
    requires
        start <= v@.len(),
    ensures
        r matches Some(k) ==> closing_brace(v@, start as int) == Some(k as int),
        r is None ==> closing_brace(v@, start as int) is None,
{
    let n = v.len();
    let mut j = start;
    let mut depth: usize = 0;
    let mut in_str = false;
    let mut esc = false;
    while j < n
        invariant
            n == v@.len(),
            start <= j <= n,
            depth <= j - start,
            !in_str ==> !esc,
            closing_brace(v@, start as int) == close_from(v@, j as int, depth as nat, in_str, esc),
        decreases n - j,
    {
        let c = v[j];
        if in_str {
            if esc {
                esc = false;
            } else if c == '\\' {
                esc = true;
            } else if c == '"' {
                in_str = false;
            }
        } else if c == '"' {
            in_str = true;
        } else if c == '{' {
            depth = depth + 1;
        } else if c == '}' {
            if depth <= 1 {
                return Some(j);
            }
            depth = depth - 1;
        }
        j = j + 1;
    }
    None
}

/// The name and arguments (as JSON text, `{}` when absent) of the tool call
/// written as the JSON object `json`, when it has a string `tool` member.
pub open spec fn call_of(json: Seq<char>) -> Option<(Seq<char>, Seq<char>)> {
    match json_str_member(json, "tool"@) {
        Some(name) => Some((name, match json_member_text(json, "args"@) { Some(a) => a, None => "{}"@ })),
        None => None,
    }
}

pub(crate) fn call_in(json: &str) -> (r: Option<ToolRequest>)
    ensures
        match call_of(json@) {
            Some((n, a)) => r matches Some(req) && req.name@ == n && req.args@ == a,
            None => r is None,
        },
{
    let name = match str_member(json, "tool") {
        Some(n) => n,
        None => return None,
    };
    let args = match member_text(json, "args") {
        Some(a) => a,
        None => String::from_str("{}"),
    };
    Some(ToolRequest { name, args })
}

/// A parsed tool call plus the span (in characters) it occupied in the
/// model's text, so the raw JSON can be hidden from the transcript.
#[derive(Debug, Clone)]
pub struct ParsedCall {
    pub req: ToolRequest,
    pub start: usize,
    pub end: usize,
}

/// The tool call in a reply: the object that owns the first `"tool"` key
/// (the last `{` before it), up to its closing brace, when that text is a
/// tool call.
pub open spec fn tool_call_in(text: Seq<char>) -> Option<(int, int, Seq<char>, Seq<char>)> {
    match crate::text::find(text, "\"tool\""@) {
        None => None,
        Some(key) => match crate::web::last_index_of(text.take(key), '{') {
            None => None,
            Some(brace) => match closing_brace(text, brace) {
                None => None,
                Some(close) => match call_of(text.subrange(brace, close + 1)) {
                    None => None,
                    Some((n, a)) => Some((brace, close + 1, n, a)),
                },
            },
        },
    }
}

/// Finds the first `{"tool": "...", "args": {...}}` object in `text`.
pub fn extract_tool_call(text: &str) -> (r: Option<ParsedCall>)
    ensures
        match tool_call_in(text@) {
            Some((start, end, n, a)) => r matches Some(p) && p.start == start && p.end == end
                && p.req.name@ == n && p.req.args@ == a,
            None => r is None,
        },
{
    let v = chars_of(text);
    let _vn = v.len();
    let key = match crate::text::find_str(&v, "\"tool\"", 0) {
        Some(k) => k,
        None => return None,
    };
    proof {
        crate::text::lemma_find_from_bounds(v@, "\"tool\""@, 0);
    }
    let mut b = key;
    while b > 0 && v[b - 1] != '{'
        invariant
            b <= key <= v@.len(),
            crate::web::last_index_of(v@.take(key as int), '{') == crate::web::last_index_of(v@.take(b as int), '{'),
        decreases b,
    {
        assert(v@.take(b as int).drop_last() =~= v@.take(b - 1));
        b = b - 1;
    }
    if b == 0 {
        assert(v@.take(0) =~= Seq::<char>::empty());
        return None;
    }
    let brace = b - 1;
    assert(v@.take(b as int).last() == '{');
    let close = match find_closing(&v, brace) {
        Some(c) => c,
        None => return None,
    };
    proof {
        lemma_close_from_bounds(v@, brace as int, 0, false, false);
    }
    let json = string_of_range(&v, brace, close + 1);
    match call_in(json.as_str()) {
        Some(req) => Some(ParsedCall { req, start: brace, end: close + 1 }),
        None => None,
    }
}

/// A one-line, human summary of what a tool call will do, e.g.
/// `shell · ls -la`.
pub open spec fn describe_of(name: Seq<char>, args: Seq<char>) -> Seq<char> {
    let detail = if name == "shell"@ {
        arg_text(args, "command"@)
    } else if name == "file"@ {
        trim(arg_text(args, "action"@) + seq![' '] + arg_text(args, "path"@))
    } else if name == "process"@ {
        trim(arg_text(args, "action"@) + seq![' '] + arg_text(args, "command"@))
    } else {
        args
    };
    if detail.len() == 0 { name } else { name + " · "@ + detail }
}

/// The string argument `k`, or nothing.
pub open spec fn arg_text(args: Seq<char>, k: Seq<char>) -> Seq<char> {
    match json_str_member(args, k) {
        Some(v) => v,
        None => Seq::empty(),
    }
}

pub(crate) fn member_or_empty(args: &str, key: &str) -> (r: String)
    ensures
        r@ == arg_text(args@, key@),
{
    match str_member(args, key) {
        Some(v) => v,
        None => String::new(),
    }
}

pub fn describe(req: &ToolRequest) -> (r: String)
    ensures
        r@ == describe_of(req.name@, req.args@),
{
    let nv = chars_of(req.name.as_str());
    let ghost name = req.name@;
    let ghost args = req.args@;
    let detail = if crate::text::vec_is(&nv, "shell") {
        member_or_empty(req.args.as_str(), "command")
    } else if crate::text::vec_is(&nv, "file") {
        let mut s = member_or_empty(req.args.as_str(), "action");
        push_char(&mut s, ' ');
        let p = member_or_empty(req.args.as_str(), "path");
        push_str(&mut s, p.as_str());
        assert(s@ =~= arg_text(args, "action"@) + seq![' '] + arg_text(args, "path"@));
        crate::text::trimmed(s.as_str())
    } else if crate::text::vec_is(&nv, "process") {
        let mut s = member_or_empty(req.args.as_str(), "action");
        push_char(&mut s, ' ');
        let p = member_or_empty(req.args.as_str(), "command");
        push_str(&mut s, p.as_str());
        assert(s@ =~= arg_text(args, "action"@) + seq![' '] + arg_text(args, "command"@));
        crate::text::trimmed(s.as_str())
    } else {
        req.args.clone()
    };
    let ghost d = if name == "shell"@ {
        arg_text(args, "command"@)
    } else if name == "file"@ {
        trim(arg_text(args, "action"@) + seq![' '] + arg_text(args, "path"@))
    } else if name == "process"@ {
        trim(arg_text(args, "action"@) + seq![' '] + arg_text(args, "command"@))
    } else {
        args
    };
    assert(detail@ == d);
    if detail.as_str().is_empty() {
        req.name.clone()
    } else {
        let mut s = req.name.clone();
        push_str(&mut s, " · ");
        push_str(&mut s, detail.as_str());
        assert(s@ =~= name + " · "@ + d);
        s
    }
}

// ── The chat ───────────────────────────────────────────────────────────────

/// The safety of the first listed tool called `name`.
pub open spec fn safety_in(ts: Seq<ToolInfo>, name: Seq<char>) -> Option<ToolSafety>
    decreases ts.len(),
{
    if ts.len() == 0 {
        None
    } else if ts[0].name@ == name {
        Some(ts[0].safety)
    } else {
        safety_in(ts.drop_first(), name)
    }
}

/// One message as sent to the model: its wire role and content, or nothing
/// for notices (and for empty messages).
pub open spec fn wire_of(m: (Role, Seq<char>, Option<Seq<char>>)) -> Option<(Seq<char>, Seq<char>)> {
    let (role, content, tool) = m;
    let pair = match role {
        Role::User => Some(("user"@, content)),
        Role::Assistant => Some(("assistant"@, content)),
        Role::Tool => Some(("user"@, "Tool result for "@ + (match tool { Some(t) => t, None => "tool"@ }) + ":\n"@ + content)),
        Role::System => None,
    };
    match pair {
        Some((r, c)) => if c.len() > 0 { Some((r, c)) } else { None },
        None => None,
    }
}

/// The transcript as sent to the model (the first `n` messages).
pub open spec fn wire_msgs(ms: Seq<(Role, Seq<char>, Option<Seq<char>>)>, n: int) -> Seq<(Seq<char>, Seq<char>)>
    decreases n,
{
    if n <= 0 {
        Seq::empty()
    } else {
        match wire_of(ms[n - 1]) {
            Some(p) => wire_msgs(ms, n - 1).push(p),
            None => wire_msgs(ms, n - 1),
        }
    }
}

pub const CHAT_INTRO: &'static str = "You are LlamaChat, a helpful assistant running in the user's terminal with access to their machine through tools.\n\n";
pub const CHAT_RULES: &'static str = "\nRules:\n- Call a tool ONLY when you need it to answer; otherwise just reply.\n- To call a tool, output ONLY the JSON object, nothing else.\n- After a tool result, either call another tool or give a concise final answer in plain language.\n";
pub const HELP_KEYS: &'static str = "\n**Keys**: `Enter` send · `↑/↓` scroll · `Esc` interrupt / back · `Ctrl-C` quit\n**Shift+Tab** cycle permission mode: Manual → AcceptEdits → Plan → Auto → Bypass\n**Tool prompts**: `a` allow once · `A` always allow · `d` deny";

/// The system prompt for a chat: who the model is, the response style for
/// the effort level, the tools, and the rules for calling them.
pub open spec fn chat_prompt(effort: Effort, tools: Seq<ToolInfo>) -> Seq<char> {
    CHAT_INTRO@ + "**Response style**: "@ + effort.hint_of() + "\n\n"@
        + crate::tools::PROMPT_HEAD@ + crate::tools::sections(tools, tools.len() as int) + crate::tools::PROMPT_TAIL@
        + CHAT_RULES@
}

/// The help text: every slash command, then the keys.
pub open spec fn help_of() -> Seq<char> {
    "**Slash commands**\n"@ + slash_lines(slash_list().len() as int) + HELP_KEYS@
}

pub open spec fn slash_lines(n: int) -> Seq<char>
    decreases n,
{
    if n <= 0 {
        Seq::empty()
    } else {
        slash_lines(n - 1) + "- `/"@ + slash_list()[n - 1].0 + "` — "@ + slash_list()[n - 1].1 + seq!['\n']
    }
}

pub open spec fn safety_word(s: ToolSafety) -> Seq<char> {
    match s {
        ToolSafety::ReadOnly => "read-only, auto"@,
        ToolSafety::Write => "write, auto"@,
        ToolSafety::Destructive => "needs approval"@,
    }
}

pub open spec fn tool_lines(ts: Seq<ToolInfo>, n: int) -> Seq<char>
    decreases n,
{
    if n <= 0 {
        Seq::empty()
    } else {
        tool_lines(ts, n - 1) + "- `"@ + ts[n - 1].name@ + "` ("@ + safety_word(ts[n - 1].safety) + ") — "@
            + ts[n - 1].description@ + seq!['\n']
    }
}

/// The tools listing.
pub open spec fn tools_text_of(on: bool, ts: Seq<ToolInfo>) -> Seq<char> {
    "**Tools** ("@ + (if on { "enabled"@ } else { "disabled — /tools on"@ }) + ")\n"@ + tool_lines(ts, ts.len() as int)
        + "\nToggle with `/tools on` or `/tools off`."@
}

/// The permissions summary.
pub open spec fn permissions_text_of(bypass: bool, names: Seq<Seq<char>>) -> Seq<char> {
    "**Permissions**\n"@
        + (if bypass { "- Bypass mode: **ON** (all tools auto-approved)\n"@ } else { "- Bypass mode: off — destructive tools ask first\n"@ })
        + (if names.len() == 0 { "- Always-allowed: none\n"@ } else { "- Always-allowed: "@ + crate::text::join(names, ", "@) + seq!['\n'] })
        + "\n`/permissions allow <tool>` · `/permissions allow-all` · `/permissions reset`"@
}

/// Messages from the user or the model among the first `n`.
pub open spec fn conversation_count(ms: Seq<(Role, Seq<char>, Option<Seq<char>>)>, n: int) -> nat
    decreases n,
{
    if n <= 0 {
        0
    } else {
        conversation_count(ms, n - 1) + if ms[n - 1].0 == Role::User || ms[n - 1].0 == Role::Assistant { 1nat } else { 0nat }
    }
}

/// The session status.
pub open spec fn status_text_of(model: Seq<char>, mode: PermMode, effort: Effort, tools_on: bool, count: nat) -> Seq<char> {
    "**Status**\n- Model: `"@ + model + "`\n- Mode: "@ + mode.badge_of() + " ("@ + mode.explain_of() + ")\n- Effort: "@
        + effort.label_of() + "\n- Tools: "@ + (if tools_on { "on"@ } else { "off"@ }) + "\n- Messages: "@ + decimal(count)
}

pub open spec fn mode_note(m: PermMode) -> Seq<char> {
    "Mode → "@ + m.badge_of() + "  ("@ + m.explain_of() + ")"@
}

pub open spec fn effort_note(e: Effort) -> Seq<char> {
    "Effort → "@ + e.badge_of() + "  ·  "@ + e.hint_of()
}

/// Does a command's name start with `q`?
pub open spec fn name_starts(q: Seq<char>) -> spec_fn((Seq<char>, Seq<char>)) -> bool {
    |c: (Seq<char>, Seq<char>)| crate::text::starts_with(c.0, q)
}

/// Full-screen chat state.
pub struct Chat {
    pub model: String,
    pub messages: Vec<Message>,
    pub input: String,
    pub slash_selected: usize,
    /// Lines scrolled up from the bottom (0 = pinned to newest).
    pub scroll: u16,
    /// A reply is streaming in.
    pub streaming: bool,
    /// Tokens received for the streaming reply.
    pub stream_tokens: usize,
    /// The tools the model can call.
    pub tools: Vec<ToolInfo>,
    pub tools_on: bool,
    pub perms: Perms,
    /// A tool call awaiting the user's permission decision.
    pub pending: Option<ToolRequest>,
    /// A tool is executing.
    pub tool_running: bool,
    /// The name of the running tool.
    pub running: Option<String>,
    /// Tool calls in this user turn.
    pub rounds: u32,
    /// Permission mode (cycled with Shift+Tab).
    pub mode: PermMode,
    /// How hard the model should reason.
    pub effort: Effort,
    /// A reply to stream: the transcript to send, as (role, content) pairs.
    pub outbox_stream: Option<Vec<(String, String)>>,
    /// A tool call to run.
    pub outbox_tool: Option<ToolRequest>,
}

impl Chat {
    pub open spec fn msgs(self) -> Seq<(Role, Seq<char>, Option<Seq<char>>)> {
        self.messages@.map_values(|m: Message| mv(m))
    }

    pub open spec fn wf(self) -> bool {
        self.perms.wf()
    }

    /// Busy = can't accept a new user message right now.
    pub open spec fn is_busy(self) -> bool {
        self.streaming || self.tool_running || self.pending is Some
    }

    /// A fresh chat with `model`, offering the shell, file and process tools.
    pub fn new(model: String) -> (c: Chat)
        ensures
            c.wf(),
            c.model@ == model@,
            c.msgs().len() == 0,
            c.input@.len() == 0,
            c.tools@.len() == 3,
            c.tools@[0].name@ == "shell"@ && c.tools@[0].safety == ToolSafety::Destructive,
            c.tools@[1].name@ == "file"@ && c.tools@[1].safety == ToolSafety::Write,
            c.tools@[2].name@ == "process"@ && c.tools@[2].safety == ToolSafety::Destructive,
            c.tools_on,
            c.perms.names().len() == 0,
            !c.perms.bypass(),
            !c.is_busy(),
            c.running is None,
            c.rounds == 0,
            c.mode == PermMode::Manual,
            c.effort == Effort::Medium,
            c.outbox_stream is None,
            c.outbox_tool is None,
            c.slash_selected == 0,
            c.scroll == 0,
    {
        let limits = <crate::tools::ToolLimits as Default>::default();
        let shell = crate::tools::ShellTool::new(limits.clone()).info();
        let file = crate::tools::FilesystemTool::new(limits.clone()).info();
        let process = crate::tools::ProcessTool::new(limits).info();
        let c = Chat {
            model,
            messages: Vec::new(),
            input: String::new(),
            slash_selected: 0,
            scroll: 0,
            streaming: false,
            stream_tokens: 0,
            tools: vec![shell, file, process],
            tools_on: true,
            perms: Perms::new(),
            pending: None,
            tool_running: false,
            running: None,
            rounds: 0,
            mode: PermMode::Manual,
            effort: Effort::Medium,
            outbox_stream: None,
            outbox_tool: None,
        };
        assert(c.msgs() =~= Seq::<(Role, Seq<char>, Option<Seq<char>>)>::empty());
        c
    }

    fn note(&mut self, text: String)
        ensures
            final(self).msgs() == old(self).msgs().push((Role::System, text@, None::<Seq<char>>)),
            final(self).messages@.len() == old(self).messages@.len() + 1,
            final(self).model == old(self).model,
            final(self).input == old(self).input,
            final(self).slash_selected == old(self).slash_selected,
            final(self).scroll == old(self).scroll,
            final(self).streaming == old(self).streaming,
            final(self).stream_tokens == old(self).stream_tokens,
            final(self).tools == old(self).tools,
            final(self).tools_on == old(self).tools_on,
            final(self).perms == old(self).perms,
            final(self).pending == old(self).pending,
            final(self).tool_running == old(self).tool_running,
            final(self).running == old(self).running,
            final(self).rounds == old(self).rounds,
            final(self).mode == old(self).mode,
            final(self).effort == old(self).effort,
            final(self).outbox_stream == old(self).outbox_stream,
            final(self).outbox_tool == old(self).outbox_tool,
    {
        let ghost before = self.msgs();
        let m = Message::system(text);
        self.messages.push(m);
        assert(self.msgs() =~= before.push(mv(m)));
    }

    /// Cycles the permission mode (Shift+Tab) and says so.
    pub fn cycle_mode(&mut self)
        ensures
            final(self).mode == old(self).mode.next_of(),
            final(self).msgs() == old(self).msgs().push((Role::System, mode_note(old(self).mode.next_of()), None::<Seq<char>>)),
    {
        self.mode = self.mode.next();
        let t = self.mode_text();
        self.note(t);
    }

    fn mode_text(&self) -> (r: String)
        ensures
            r@ == mode_note(self.mode),
    {
        let mut s = String::from_str("Mode → ");
        push_str(&mut s, self.mode.badge());
        push_str(&mut s, "  (");
        push_str(&mut s, self.mode.explain());
        push_str(&mut s, ")");
        assert(s@ =~= mode_note(self.mode));
        s
    }

    pub fn is_streaming(&self) -> (r: bool)
        ensures
            r == self.streaming,
    {
        self.streaming
    }

    pub fn is_tool_running(&self) -> (r: bool)
        ensures
            r == self.tool_running,
    {
        self.tool_running
    }

    /// A tool call waiting for the user's yes/no.
    pub fn pending(&self) -> (r: Option<&ToolRequest>)
        ensures
            r == match self.pending { Some(ref q) => Some(q), None => None::<&ToolRequest> },
    {
        self.pending.as_ref()
    }

    pub fn busy(&self) -> (r: bool)
        ensures
            r == self.is_busy(),
    {
        self.streaming || self.tool_running || self.pending.is_some()
    }

    pub fn running_tool(&self) -> (r: Option<&String>)
        ensures
            r == match self.running { Some(ref q) => Some(q), None => None::<&String> },
    {
        self.running.as_ref()
    }

    /// Does the tool registry want the user's approval before `name` runs?
    pub fn needs_approval(&self, name: &str) -> (r: bool)
        ensures
            r == (safety_in(self.tools@, name@) is None || safety_in(self.tools@, name@) == Some(ToolSafety::Destructive)),
    {
        let mut i: usize = 0;
        assert(self.tools@.skip(0) =~= self.tools@);
        while i < self.tools.len()
            invariant
                i <= self.tools@.len(),
                safety_in(self.tools@, name@) == safety_in(self.tools@.skip(i as int), name@),
            decreases self.tools@.len() - i,
        {
            assert(self.tools@.skip(i as int).drop_first() =~= self.tools@.skip(i + 1));
            if crate::text::str_eq(self.tools[i].name.as_str(), name) {
                return crate::tools::needs_approval(Some(self.tools[i].safety));
            }
            i = i + 1;
        }
        assert(self.tools@.skip(i as int) =~= Seq::<ToolInfo>::empty());
        true
    }

    /// Whether the permission mode approves this call without asking: never
    /// in manual and plan modes; in accept-edits mode file operations and
    /// shell commands that start with a safe program; always in auto and
    /// bypass modes.
    pub open spec fn mode_allows_spec(mode: PermMode, name: Seq<char>, args: Seq<char>) -> bool {
        match mode {
            PermMode::Manual => false,
            PermMode::Plan => false,
            PermMode::AcceptEdits => name == "file"@ || (name == "shell"@ && {
                let cmd = arg_text(args, "command"@);
                trim(cmd).len() > 0 && crate::types::is_safe_cmd_name(crate::types::first_word(trim(cmd)))
            }),
            PermMode::Auto | PermMode::Bypass => true,
        }
    }

    pub fn mode_allows(&self, req: &ToolRequest) -> (r: bool)
        ensures
            r == Self::mode_allows_spec(self.mode, req.name@, req.args@),
    {
        match self.mode {
            PermMode::Manual => false,
            PermMode::Plan => false,
            PermMode::AcceptEdits => {
                let nv = chars_of(req.name.as_str());
                if crate::text::vec_is(&nv, "file") {
                    true
                } else if crate::text::vec_is(&nv, "shell") {
                    let cmd = member_or_empty(req.args.as_str(), "command");
                    PermMode::is_safe_cmd(cmd.as_str())
                } else {
                    false
                }
            }
            PermMode::Auto | PermMode::Bypass => true,
        }
    }

    // --- slash palette -------------------------------------------------------

    /// The text after a leading `/`, while it has no whitespace.
    pub open spec fn slash_query_of(input: Seq<char>) -> Option<Seq<char>> {
        if input.len() > 0 && input[0] == '/' && !(exists|i: int| 1 <= i < input.len() && crate::text::is_ws(#[trigger] input[i])) {
            Some(input.drop_first())
        } else {
            None
        }
    }

    pub fn slash_query(&self) -> (r: Option<String>)
        ensures
            match Self::slash_query_of(self.input@) {
                Some(q) => r matches Some(s) && s@ == q,
                None => r is None,
            },
    {
        let v = chars_of(self.input.as_str());
        if v.len() == 0 || v[0] != '/' {
            return None;
        }
        let mut i: usize = 1;
        while i < v.len()
            invariant
                v@ == self.input@,
                v@.len() > 0 && v@[0] == '/',
                1 <= i <= v@.len(),
                forall|k: int| 1 <= k < i ==> !crate::text::is_ws(#[trigger] v@[k]),
            decreases v@.len() - i,
        {
            if crate::text::is_whitespace(v[i]) {
                assert(crate::text::is_ws(self.input@[i as int]));
                return None;
            }
            i = i + 1;
        }
        assert(v@.subrange(1, v@.len() as int) =~= v@.drop_first());
        Some(string_of_range(&v, 1, v.len()))
    }

    /// The slash commands whose names start with the (ASCII-lowercased) query.
    pub open spec fn slash_matches_of(input: Seq<char>) -> Seq<(Seq<char>, Seq<char>)> {
        let q = crate::text::lower(match Self::slash_query_of(input) { Some(q) => q, None => Seq::empty() });
        slash_list().filter(name_starts(q))
    }

    pub fn slash_matches(&self) -> (r: Vec<SlashCmd>)
        ensures
            r@.map_values(|c: SlashCmd| (c.name@, c.desc@)) == Self::slash_matches_of(self.input@),
    {
        let q = match self.slash_query() {
            Some(q) => q,
            None => String::new(),
        };
        let qv = chars_of(q.as_str());
        let ql = crate::text::lower_vec(&qv);
        let all = slash_commands();
        let ghost lq = ql@;
        proof {
            reveal_strlit("");
        }
        let mut out: Vec<SlashCmd> = Vec::new();
        let mut i: usize = 0;
        while i < all.len()
            invariant
                ql@ == lq,
                all@.len() == slash_list().len(),
                forall|k: int| 0 <= k < all@.len() ==> (#[trigger] all@[k]).name@ == slash_list()[k].0 && all@[k].desc@ == slash_list()[k].1,
                i <= all@.len(),
                out@.map_values(|c: SlashCmd| (c.name@, c.desc@))
                    == slash_list().take(i as int).filter(name_starts(lq)),
            decreases all@.len() - i,
        {
            let c = all[i];
            let nv = chars_of(c.name);
            let ok = crate::text::matches_at(&nv, &ql, 0);
            let ghost before = out@.map_values(|c: SlashCmd| (c.name@, c.desc@));
            if ok {
                out.push(c);
            }
            proof {
                assert(slash_list().take(i + 1) =~= slash_list().take(i as int).push(slash_list()[i as int]));
                slash_list().take(i as int).lemma_filter_push(slash_list()[i as int], name_starts(lq));
                assert(ok == name_starts(lq)(slash_list()[i as int]));
                assert(out@.map_values(|c: SlashCmd| (c.name@, c.desc@)) =~= (if ok { before.push((c.name@, c.desc@)) } else { before }));
            }
            i = i + 1;
        }
        assert(slash_list().take(slash_list().len() as int) =~= slash_list());
        proof {
            assert(""@ =~= Seq::<char>::empty());
        }
        out
    }

    /// Moves the palette selection, wrapping around the matches.
    pub fn move_slash(&mut self, delta: i32)
        requires
            i32::MIN <= (old(self).slash_selected as i32) + delta <= i32::MAX,
        ensures
            ({
                let n = if Self::slash_matches_of(old(self).input@).len() > 0 { Self::slash_matches_of(old(self).input@).len() as int } else { 1 };
                final(self).slash_selected == ((old(self).slash_selected as i32) as int + delta) % n
            }),
            final(self).input == old(self).input,
            final(self).msgs() == old(self).msgs(),
    {
        let ms = self.slash_matches();
        let m = ms.len();
        proof {
            slash_list().lemma_filter_len(name_starts(crate::text::lower(match Self::slash_query_of(self.input@) { Some(q) => q, None => Seq::empty() })));
            assert(m == ms@.map_values(|c: SlashCmd| (c.name@, c.desc@)).len());
        }
        let n: i64 = if m > 0 { m as i64 } else { 1 };
        let cur = (self.slash_selected as i32) as i64;
        let a = cur + delta as i64;
        let y = match a.checked_rem_euclid(n) {
            Some(y) => y,
            None => 0,
        };
        assert(0 <= y < n) by (nonlinear_arith)
            requires y == a % n, n > 0;
        self.slash_selected = y as usize;
    }

    /// Completes the input to the selected (or first) matching command.
    pub fn complete_slash(&mut self)
        ensures
            ({
                let ms = Self::slash_matches_of(old(self).input@);
                if old(self).slash_selected < ms.len() {
                    final(self).input@ == seq!['/'] + ms[old(self).slash_selected as int].0
                } else if ms.len() > 0 {
                    final(self).input@ == seq!['/'] + ms[0].0
                } else {
                    final(self).input@ == old(self).input@
                }
            }),
            final(self).msgs() == old(self).msgs(),
    {
        let matches = self.slash_matches();
        let pick = if self.slash_selected < matches.len() {
            self.slash_selected
        } else if matches.len() > 0 {
            0
        } else {
            return;
        };
        let c = matches[pick];
        assert(matches@.map_values(|c: SlashCmd| (c.name@, c.desc@))[pick as int] == (c.name@, c.desc@));
        let mut s = String::from_str("/");
        push_str(&mut s, c.name);
        proof {
            reveal_strlit("/");
            assert(s@ =~= seq!['/'] + c.name@);
        }
        self.input = s;
    }

    // --- editing -------------------------------------------------------------

    pub fn push_char(&mut self, c: char)
        ensures
            final(self).input@ == old(self).input@.push(c),
            final(self).slash_selected == 0,
            final(self).scroll == 0,
            final(self).msgs() == old(self).msgs(),
    {
        push_char(&mut self.input, c);
        self.slash_selected = 0;
        self.scroll = 0;
    }

    pub fn backspace(&mut self)
        ensures
            final(self).input@ == (if old(self).input@.len() > 0 { old(self).input@.drop_last() } else { old(self).input@ }),
            final(self).slash_selected == 0,
            final(self).msgs() == old(self).msgs(),
    {
        let v = chars_of(self.input.as_str());
        if v.len() > 0 {
            self.input = string_of_range(&v, 0, v.len() - 1);
            assert(v@.subrange(0, v@.len() - 1) =~= v@.drop_last());
        }
        self.slash_selected = 0;
    }

    pub fn scroll_up(&mut self)
        ensures
            final(self).scroll == if old(self).scroll < u16::MAX { (old(self).scroll + 1) as u16 } else { u16::MAX },
    {
        self.scroll = self.scroll.saturating_add(1);
    }

    pub fn scroll_down(&mut self)
        ensures
            final(self).scroll == if old(self).scroll > 0 { (old(self).scroll - 1) as u16 } else { 0 },
    {
        self.scroll = self.scroll.saturating_sub(1);
    }
}

/// The help text.
pub fn help_text() -> (r: String)
    ensures
        r@ == help_of(),
{
    let cmds = slash_commands();
    let mut s = String::from_str("**Slash commands**\n");
    let mut i: usize = 0;
    while i < cmds.len()
        invariant
            cmds@.len() == slash_list().len(),
            forall|k: int| 0 <= k < cmds@.len() ==> (#[trigger] cmds@[k]).name@ == slash_list()[k].0 && cmds@[k].desc@ == slash_list()[k].1,
            i <= cmds@.len(),
            s@ == "**Slash commands**\n"@ + slash_lines(i as int),
        decreases cmds@.len() - i,
    {
        let c = cmds[i];
        push_str(&mut s, "- `/");
        push_str(&mut s, c.name);
        push_str(&mut s, "` — ");
        push_str(&mut s, c.desc);
        push_char(&mut s, '\n');
        i = i + 1;
        assert(s@ =~= "**Slash commands**\n"@ + slash_lines(i as int));
    }
    push_str(&mut s, HELP_KEYS);
    s
}

impl Chat {
    /// The system prompt for the next turn.
    pub fn system_prompt(&self) -> (r: String)
        ensures
            r@ == chat_prompt(self.effort, self.tools@),
    {
        let mut s = String::from_str(CHAT_INTRO);
        push_str(&mut s, "**Response style**: ");
        push_str(&mut s, self.effort.system_hint());
        push_str(&mut s, "\n\n");
        let tp = crate::tools::system_prompt(&self.tools);
        push_str(&mut s, tp.as_str());
        push_str(&mut s, CHAT_RULES);
        assert(s@ =~= chat_prompt(self.effort, self.tools@));
        s
    }

    pub fn tools_text(&self) -> (r: String)
        ensures
            r@ == tools_text_of(self.tools_on, self.tools@),
    {
        let mut s = String::from_str("**Tools** (");
        push_str(&mut s, if self.tools_on { "enabled" } else { "disabled — /tools on" });
        push_str(&mut s, ")\n");
        let ghost head = s@;
        let mut i: usize = 0;
        while i < self.tools.len()
            invariant
                i <= self.tools@.len(),
                s@ == head + tool_lines(self.tools@, i as int),
            decreases self.tools@.len() - i,
        {
            let t = &self.tools[i];
            push_str(&mut s, "- `");
            push_str(&mut s, t.name.as_str());
            push_str(&mut s, "` (");
            push_str(&mut s, match t.safety {
                ToolSafety::ReadOnly => "read-only, auto",
                ToolSafety::Write => "write, auto",
                ToolSafety::Destructive => "needs approval",
            });
            push_str(&mut s, ") — ");
            push_str(&mut s, t.description.as_str());
            push_char(&mut s, '\n');
            i = i + 1;
            assert(s@ =~= head + tool_lines(self.tools@, i as int));
        }
        push_str(&mut s, "\nToggle with `/tools on` or `/tools off`.");
        assert(s@ =~= tools_text_of(self.tools_on, self.tools@));
        s
    }

    pub fn permissions_text(&self) -> (r: String)
        ensures
            r@ == permissions_text_of(self.perms.bypass(), self.perms.names()),
    {
        let mut s = String::from_str("**Permissions**\n");
        if self.perms.allow_all {
            push_str(&mut s, "- Bypass mode: **ON** (all tools auto-approved)\n");
        } else {
            push_str(&mut s, "- Bypass mode: off — destructive tools ask first\n");
        }
        if self.perms.none_always() {
            push_str(&mut s, "- Always-allowed: none\n");
        } else {
            push_str(&mut s, "- Always-allowed: ");
            let j = self.perms.joined();
            push_str(&mut s, j.as_str());
            push_char(&mut s, '\n');
        }
        push_str(&mut s, "\n`/permissions allow <tool>` · `/permissions allow-all` · `/permissions reset`");
        proof {
            assert(self.perms.bypass() == self.perms.allow_all);
        }
        assert(s@ =~= permissions_text_of(self.perms.bypass(), self.perms.names()));
        s
    }

    pub fn status_text(&self) -> (r: String)
        ensures
            r@ == status_text_of(self.model@, self.mode, self.effort, self.tools_on,
                conversation_count(self.msgs(), self.msgs().len() as int)),
    {
        let mut count: u128 = 0;
        let mut i: usize = 0;
        while i < self.messages.len()
            invariant
                i <= self.messages@.len(),
                count == conversation_count(self.msgs(), i as int),
                count <= i,
            decreases self.messages@.len() - i,
        {
            let r = self.messages[i].role;
            assert(self.msgs()[i as int].0 == r);
            if r == Role::User || r == Role::Assistant {
                count = count + 1;
            }
            i = i + 1;
        }
        let mut s = String::from_str("**Status**\n- Model: `");
        push_str(&mut s, self.model.as_str());
        push_str(&mut s, "`\n- Mode: ");
        push_str(&mut s, self.mode.badge());
        push_str(&mut s, " (");
        push_str(&mut s, self.mode.explain());
        push_str(&mut s, ")\n- Effort: ");
        push_str(&mut s, self.effort.label());
        push_str(&mut s, "\n- Tools: ");
        push_str(&mut s, if self.tools_on { "on" } else { "off" });
        push_str(&mut s, "\n- Messages: ");
        push_decimal(&mut s, count);
        assert(s@ =~= status_text_of(self.model@, self.mode, self.effort, self.tools_on,
            conversation_count(self.msgs(), self.msgs().len() as int)));
        s
    }
}

// ── Turns ──────────────────────────────────────────────────────────────────

pub type MsgV = (Role, Seq<char>, Option<Seq<char>>);

/// What is sent to the model for a turn: the system prompt (when tools are
/// on), then the transcript.
pub open spec fn turn_request(tools_on: bool, effort: Effort, tools: Seq<ToolInfo>, ms: Seq<MsgV>) -> Seq<(Seq<char>, Seq<char>)> {
    (if tools_on { seq![("system"@, chat_prompt(effort, tools))] } else { Seq::empty() }) + wire_msgs(ms, ms.len() as int)
}

/// The settings a turn does not change.
pub open spec fn same_settings(a: Chat, b: Chat) -> bool {
    &&& a.model == b.model
    &&& a.tools == b.tools
    &&& a.tools_on == b.tools_on
    &&& a.perms == b.perms
    &&& a.mode == b.mode
    &&& a.effort == b.effort
}

/// `t` is `s` with the transcript `ms` after a new turn began: an empty
/// reply is waiting for the stream, which is asked for with the transcript.
pub open spec fn turn_began(s: Chat, ms: Seq<MsgV>, t: Chat) -> bool {
    &&& t.msgs() == ms.push((Role::Assistant, Seq::empty(), None))
    &&& t.scroll == 0
    &&& t.streaming
    &&& t.stream_tokens == 0
    &&& t.outbox_stream matches Some(o) && o@.map_values(|p: (String, String)| (p.0@, p.1@)) == turn_request(s.tools_on, s.effort, s.tools@, ms)
}

/// The reply at the end of `ms` calls a tool that plan mode refuses, so
/// the refusal goes back to the model in a new turn.
pub open spec fn starts_turn(s: Chat, ms: Seq<MsgV>) -> bool {
    &&& s.tools_on
    &&& ms.len() > 0
    &&& ms.last().0 == Role::Assistant
    &&& tool_call_in(ms.last().1) is Some
    &&& s.rounds < MAX_ROUNDS
    &&& s.mode == PermMode::Plan
}

/// No tool was handed out to run between `s` and `f`.
pub open spec fn no_tool_started(s: Chat, f: Chat) -> bool {
    &&& f.outbox_tool == s.outbox_tool
    &&& f.tool_running == s.tool_running
    &&& f.running == s.running
}

/// `f` is `s`, holding the transcript `ms`, after the finished reply at the
/// end of `ms` was checked for a tool call: no call leaves it as it was; too
/// many calls stop with a note; plan mode refuses and starts a new turn; a
/// call that the mode, a standing permission or its safety allows is handed
/// out to run; any other waits for the user.
pub open spec fn turn_handled(s: Chat, ms: Seq<MsgV>, f: Chat) -> bool {
    if !s.tools_on || ms.len() == 0 || ms.last().0 != Role::Assistant {
        f.msgs() == ms && f.rounds == s.rounds && f.pending == s.pending && no_tool_started(s, f)
    } else {
        match tool_call_in(ms.last().1) {
            None => f.msgs() == ms && f.rounds == s.rounds && f.pending == s.pending && no_tool_started(s, f),
            Some((_, _, name, args)) => if s.rounds >= MAX_ROUNDS {
                f.msgs() == ms.push((Role::System, "Stopped after 8 tool calls."@, None))
                    && f.rounds == s.rounds && f.pending == s.pending && no_tool_started(s, f)
            } else {
                &&& f.rounds == s.rounds + 1
                &&& if s.mode == PermMode::Plan {
                    turn_began(s, ms
                        .push((Role::System, "Plan mode: auto-denied `"@ + name + "` (read-only)."@, None))
                        .push((Role::Tool, "In plan mode — reads only."@, Some(name))), f)
                } else if Chat::mode_allows_spec(s.mode, name, args)
                    || s.perms.bypass() || s.perms.names().contains(name)
                    || !(safety_in(s.tools@, name) is None || safety_in(s.tools@, name) == Some(ToolSafety::Destructive)) {
                    &&& f.msgs() == ms
                    &&& f.tool_running
                    &&& f.outbox_tool matches Some(q) && q.name@ == name && q.args@ == args
                } else {
                    &&& f.msgs() == ms
                    &&& f.pending matches Some(q) && q.name@ == name && q.args@ == args
                    &&& no_tool_started(s, f)
                }
            },
        }
    }
}

/// `ms` without a last reply that is still empty.
pub open spec fn without_empty_reply(ms: Seq<MsgV>) -> Seq<MsgV> {
    if ms.len() > 0 && ms.last().0 == Role::Assistant && ms.last().1.len() == 0 {
        ms.drop_last()
    } else {
        ms
    }
}

/// The index of the last user message.
pub open spec fn last_user(ms: Seq<MsgV>) -> Option<int>
    decreases ms.len(),
{
    if ms.len() == 0 {
        None
    } else if ms.last().0 == Role::User {
        Some(ms.len() - 1)
    } else {
        last_user(ms.drop_last())
    }
}

pub proof fn lemma_last_user_bounds(ms: Seq<MsgV>)
    ensures
        last_user(ms) matches Some(i) ==> 0 <= i < ms.len() && ms[i].0 == Role::User,
    decreases ms.len(),
{
    if ms.len() > 0 && ms.last().0 != Role::User {
        lemma_last_user_bounds(ms.drop_last());
    }
}

pub const TOOLS_OFF: &'static str = "Tools **disabled** — the model can't run anything.";
pub const TOOLS_ON: &'static str = "Tools **enabled**.";
pub const BYPASS_ON: &'static str = "**Bypass mode ON** — all tools auto-approved, no prompts.";
pub const PERMS_RESET: &'static str = "Permissions reset — manual mode, asking for each tool.";
pub const EFFORT_USAGE: &'static str = "\n\n`/effort <low|medium|high|max>`";

impl Chat {
    fn wire(m: &Message) -> (r: Option<(String, String)>)
        ensures
            match wire_of(mv(*m)) {
                Some((a, b)) => r matches Some(p) && p.0@ == a && p.1@ == b,
                None => r is None,
            },
    {
        let (role, content) = match m.role {
            Role::User => (String::from_str("user"), m.content.clone()),
            Role::Assistant => (String::from_str("assistant"), m.content.clone()),
            Role::Tool => {
                let mut c = String::from_str("Tool result for ");
                match &m.tool {
                    Some(t) => push_str(&mut c, t.as_str()),
                    None => push_str(&mut c, "tool"),
                }
                push_str(&mut c, ":\n");
                push_str(&mut c, m.content.as_str());
                (String::from_str("user"), c)
            }
            Role::System => return None,
        };
        if content.as_str().is_empty() {
            None
        } else {
            Some((role, content))
        }
    }

    /// Builds the request from the transcript and asks for one streamed turn.
    fn begin_turn(&mut self)
        ensures
            turn_began(*old(self), old(self).msgs(), *final(self)),
            same_settings(*old(self), *final(self)),
            final(self).input == old(self).input,
            final(self).slash_selected == old(self).slash_selected,
            final(self).pending == old(self).pending,
            final(self).tool_running == old(self).tool_running,
            final(self).running == old(self).running,
            final(self).rounds == old(self).rounds,
            final(self).outbox_tool == old(self).outbox_tool,
    {
        let mut req: Vec<(String, String)> = Vec::new();
        if self.tools_on {
            req.push((String::from_str("system"), self.system_prompt()));
        }
        let ghost head = req@.map_values(|p: (String, String)| (p.0@, p.1@));
        let mut i: usize = 0;
        while i < self.messages.len()
            invariant
                i <= self.messages@.len(),
                req@.map_values(|p: (String, String)| (p.0@, p.1@)) == head + wire_msgs(self.msgs(), i as int),
            decreases self.messages@.len() - i,
        {
            let ghost before = req@.map_values(|p: (String, String)| (p.0@, p.1@));
            let w = Self::wire(&self.messages[i]);
            assert(self.msgs()[i as int] == mv(self.messages@[i as int]));
            match w {
                Some(p) => {
                    let ghost pv = (p.0@, p.1@);
                    req.push(p);
                    assert(req@.map_values(|p: (String, String)| (p.0@, p.1@)) =~= before.push(pv));
                }
                None => {}
            }
            i = i + 1;
            assert(req@.map_values(|p: (String, String)| (p.0@, p.1@)) =~= head + wire_msgs(self.msgs(), i as int));
        }
        proof {
            assert(head =~= (if self.tools_on { seq![("system"@, chat_prompt(self.effort, self.tools@))] } else { Seq::empty() }));
        }
        let ghost before = self.msgs();
        let m = Message::assistant(String::new());
        self.messages.push(m);
        assert(self.msgs() =~= before.push((Role::Assistant, Seq::empty(), None)));
        self.scroll = 0;
        self.streaming = true;
        self.stream_tokens = 0;
        self.outbox_stream = Some(req);
    }

    /// Asks for `req` to be run.
    fn start_tool(&mut self, req: ToolRequest)
        ensures
            final(self).running matches Some(n) && n@ == req.name@,
            final(self).tool_running,
            final(self).outbox_tool == Some(req),
            final(self).msgs() == old(self).msgs(),
            same_settings(*old(self), *final(self)),
            final(self).pending == old(self).pending,
            final(self).streaming == old(self).streaming,
            final(self).outbox_stream == old(self).outbox_stream,
            final(self).rounds == old(self).rounds,
    {
        self.running = Some(req.name.clone());
        self.tool_running = true;
        self.outbox_tool = Some(req);
    }

    /// The user allows the pending call, this once.
    pub fn allow_once(&mut self)
        ensures
            final(self).pending is None,
            final(self).msgs() == old(self).msgs(),
            same_settings(*old(self), *final(self)),
            old(self).pending matches Some(req) ==> final(self).tool_running && final(self).outbox_tool == Some(req),
            old(self).pending is None ==> final(self).outbox_tool == old(self).outbox_tool,
    {
        if let Some(req) = self.pending.take() {
            self.start_tool(req);
        }
    }

    /// The user allows the pending call's tool from now on, and runs it.
    pub fn allow_always(&mut self)
        requires
            old(self).wf(),
        ensures
            final(self).wf(),
            final(self).pending is None,
            final(self).msgs() == old(self).msgs(),
            old(self).pending matches Some(req) ==> final(self).tool_running && final(self).outbox_tool == Some(req)
                && final(self).perms.names().to_set() == old(self).perms.names().to_set().insert(req.name@)
                && final(self).perms.bypass() == old(self).perms.bypass(),
            old(self).pending is None ==> final(self).perms == old(self).perms,
    {
        if let Some(req) = self.pending.take() {
            self.perms.allow(req.name.clone());
            self.start_tool(req);
        }
    }

    /// The user refuses the pending call: the refusal goes back to the model.
    pub fn deny(&mut self)
        ensures
            final(self).pending is None,
            same_settings(*old(self), *final(self)),
            old(self).pending matches Some(req) ==> turn_began(*old(self), old(self).msgs()
                .push((Role::System, "Denied `"@ + req.name@ + "`."@, None))
                .push((Role::Tool, "Permission denied by the user."@, Some(req.name@))), *final(self)),
            old(self).pending is None ==> final(self).msgs() == old(self).msgs(),
    {
        if let Some(req) = self.pending.take() {
            let mut t = String::from_str("Denied `");
            push_str(&mut t, req.name.as_str());
            push_str(&mut t, "`.");
            self.note(t);
            let ghost before = self.msgs();
            let m = Message::tool(req.name, String::from_str("Permission denied by the user."));
            self.messages.push(m);
            assert(self.msgs() =~= before.push(mv(m)));
            self.begin_turn();
        }
    }

    /// A reply token arrived.
    pub fn on_token(&mut self, t: &str)
        ensures
            final(self).stream_tokens == if old(self).stream_tokens < usize::MAX { old(self).stream_tokens + 1 } else { usize::MAX as int },
            old(self).msgs().len() > 0 && old(self).msgs().last().0 == Role::Assistant ==>
                final(self).msgs() == old(self).msgs().drop_last().push((Role::Assistant, old(self).msgs().last().1 + t@, old(self).msgs().last().2)),
            !(old(self).msgs().len() > 0 && old(self).msgs().last().0 == Role::Assistant) ==> final(self).msgs() == old(self).msgs(),
            same_settings(*old(self), *final(self)),
            final(self).streaming == old(self).streaming,
    {
        self.stream_tokens = self.stream_tokens.saturating_add(1);
        let n = self.messages.len();
        if n > 0 && self.messages[n - 1].role == Role::Assistant {
            let ghost before = self.msgs();
            let mut last = self.messages.pop().unwrap();
            push_str(&mut last.content, t);
            self.messages.push(last);
            assert(self.msgs() =~= before.drop_last().push((Role::Assistant, before.last().1 + t@, before.last().2)));
        }
    }

    fn drop_empty_reply(&mut self)
        ensures
            ({
                let ms = old(self).msgs();
                if ms.len() > 0 && ms.last().0 == Role::Assistant && ms.last().1.len() == 0 {
                    final(self).msgs() == ms.drop_last()
                } else {
                    final(self).msgs() == ms
                }
            }),
            same_settings(*old(self), *final(self)),
            final(self).input == old(self).input,
            final(self).slash_selected == old(self).slash_selected,
            final(self).scroll == old(self).scroll,
            final(self).pending == old(self).pending,
            final(self).tool_running == old(self).tool_running,
            final(self).running == old(self).running,
            final(self).rounds == old(self).rounds,
            final(self).outbox_tool == old(self).outbox_tool,
            final(self).outbox_stream == old(self).outbox_stream,
            final(self).streaming == old(self).streaming,
            final(self).stream_tokens == old(self).stream_tokens,
    {
        let n = self.messages.len();
        if n > 0 && self.messages[n - 1].role == Role::Assistant && self.messages[n - 1].content.as_str().is_empty() {
            let ghost before = self.msgs();
            self.messages.pop();
            assert(self.msgs() =~= before.drop_last());
        }
    }

    /// The reply stream failed: an empty reply is dropped and the error shown.
    pub fn on_stream_error(&mut self, e: &str)
        ensures
            !final(self).streaming,
            ({
                let ms = old(self).msgs();
                let kept = if ms.len() > 0 && ms.last().0 == Role::Assistant && ms.last().1.len() == 0 { ms.drop_last() } else { ms };
                final(self).msgs() == kept.push((Role::System, "⚠ "@ + e@, None))
            }),
            same_settings(*old(self), *final(self)),
    {
        self.drop_empty_reply();
        let mut t = String::from_str("⚠ ");
        push_str(&mut t, e);
        self.note(t);
        self.streaming = false;
    }

    /// The reply finished (or its stream closed): an empty reply is dropped,
    /// and the reply is checked for a tool call.
    pub fn on_stream_done(&mut self)
        requires
            old(self).wf(),
        ensures
            final(self).wf(),
            turn_handled(*old(self), without_empty_reply(old(self).msgs()), *final(self)),
            final(self).streaming == starts_turn(*old(self), without_empty_reply(old(self).msgs())),
            same_settings(*old(self), *final(self)),
    {
        self.drop_empty_reply();
        self.streaming = false;
        self.after_turn();
    }

    /// A tool finished: its summarized result goes back to the model.
    pub fn on_tool_result(&mut self, result: &ToolResult)
        ensures
            final(self).running is None,
            !final(self).tool_running,
            same_settings(*old(self), *final(self)),
            turn_began(*old(self), old(self).msgs().push((Role::Tool, summary_of(*result),
                Some(match old(self).running { Some(n) => n@, None => "tool"@ }))), *final(self)),
    {
        let name = match self.running.take() {
            Some(n) => n,
            None => String::from_str("tool"),
        };
        self.tool_running = false;
        let ghost before = self.msgs();
        let m = Message::tool(name, summarize(result));
        self.messages.push(m);
        assert(self.msgs() =~= before.push(mv(m)));
        self.begin_turn();
    }

    /// The tool's worker went away without a result.
    pub fn on_tool_crashed(&mut self)
        ensures
            final(self).running is None,
            !final(self).tool_running,
            final(self).msgs() == old(self).msgs().push((Role::System, "Tool crashed."@, None)),
            same_settings(*old(self), *final(self)),
    {
        self.tool_running = false;
        self.running = None;
        self.note(String::from_str("Tool crashed."));
    }

    /// The reply to stream, if one was asked for.
    pub fn take_stream_request(&mut self) -> (r: Option<Vec<(String, String)>>)
        ensures
            r == old(self).outbox_stream,
            final(self).outbox_stream is None,
            final(self).msgs() == old(self).msgs(),
            same_settings(*old(self), *final(self)),
    {
        self.outbox_stream.take()
    }

    /// The tool call to run, if one was asked for.
    pub fn take_tool_request(&mut self) -> (r: Option<ToolRequest>)
        ensures
            r == old(self).outbox_tool,
            final(self).outbox_tool is None,
            final(self).msgs() == old(self).msgs(),
            same_settings(*old(self), *final(self)),
    {
        self.outbox_tool.take()
    }

    /// Stops the stream, the pending prompt and the running tool; a reply
    /// that had not started says so.
    pub fn interrupt(&mut self)
        ensures
            !final(self).is_busy(),
            final(self).running is None,
            same_settings(*old(self), *final(self)),
            ({
                let ms = old(self).msgs();
                if old(self).is_busy() && ms.len() > 0 && ms.last().0 == Role::Assistant && ms.last().1.len() == 0 {
                    final(self).msgs() == ms.drop_last().push((Role::Assistant, "(stopped)"@, ms.last().2))
                } else {
                    final(self).msgs() == ms
                }
            }),
    {
        let was_busy = self.busy();
        self.streaming = false;
        self.pending = None;
        self.tool_running = false;
        self.running = None;
        if was_busy {
            let n = self.messages.len();
            if n > 0 && self.messages[n - 1].role == Role::Assistant && self.messages[n - 1].content.as_str().is_empty() {
                let ghost before = self.msgs();
                let mut last = self.messages.pop().unwrap();
                push_str(&mut last.content, "(stopped)");
                self.messages.push(last);
                assert(self.msgs() =~= before.drop_last().push((Role::Assistant, "(stopped)"@, before.last().2)));
            }
        }
    }

    /// After a streamed turn completes, looks for a tool call in the reply
    /// and acts on it: stops after too many calls; in plan mode refuses and
    /// tells the model; otherwise runs it when the mode, a standing
    /// permission or the tool's safety allows, and else waits for the user.
    pub fn after_turn(&mut self)
        requires
            old(self).wf(),
        ensures
            final(self).wf(),
            turn_handled(*old(self), old(self).msgs(), *final(self)),
            !starts_turn(*old(self), old(self).msgs()) ==> final(self).streaming == old(self).streaming,
            same_settings(*old(self), *final(self)),
    {
        if !self.tools_on {
            return;
        }
        let n = self.messages.len();
        if n == 0 || self.messages[n - 1].role != Role::Assistant {
            return;
        }
        let parsed = match extract_tool_call(self.messages[n - 1].content.as_str()) {
            Some(p) => p,
            None => return,
        };
        if self.rounds >= MAX_ROUNDS {
            self.note(String::from_str("Stopped after 8 tool calls."));
            return;
        }
        self.rounds = self.rounds + 1;
        let req = parsed.req;
        if self.mode == PermMode::Plan {
            let mut t = String::from_str("Plan mode: auto-denied `");
            push_str(&mut t, req.name.as_str());
            push_str(&mut t, "` (read-only).");
            self.note(t);
            let ghost before = self.msgs();
            let m = Message::tool(req.name, String::from_str("In plan mode — reads only."));
            self.messages.push(m);
            assert(self.msgs() =~= before.push(mv(m)));
            self.begin_turn();
            return;
        }
        let auto = self.mode_allows(&req) || self.perms.allowed(req.name.as_str()) || !self.needs_approval(req.name.as_str());
        if auto {
            self.start_tool(req);
        } else {
            self.pending = Some(req);
        }
    }
}

/// Is `a` present and equal to `s`?
fn opt_is(a: &Option<String>, s: &str) -> (r: bool)
    ensures
        r == (a matches Some(x) && x@ == s@),
{
    match a {
        Some(x) => crate::text::str_eq(x.as_str(), s),
        None => false,
    }
}

/// The word at index `i` of a command line, if any.
pub open spec fn word_at(ws: Seq<Seq<char>>, i: int) -> Option<Seq<char>> {
    if 0 <= i < ws.len() { Some(ws[i]) } else { None }
}

/// The mode labels, comma-separated.
pub open spec fn mode_labels() -> Seq<char> {
    "manual, accept-edits, plan, auto, bypass"@
}

/// The effort labels, comma-separated.
pub open spec fn effort_labels() -> Seq<char> {
    "low, medium, high, max"@
}

/// What running the slash command `rest` did, taking the chat from `o` to
/// `f` with result `r`.
pub open spec fn command_done(o: Chat, f: Chat, rest: Seq<char>, r: ChatAction) -> bool {
    let ws = words(rest);
    let name = match word_at(ws, 0) { Some(w) => w, None => Seq::empty() };
    let a1 = word_at(ws, 1);
    let a2 = word_at(ws, 2);
    let ms = o.msgs();
    if name == "quit"@ || name == "exit"@ {
        r == ChatAction::Quit && f.msgs() == ms && same_settings(o, f)
    } else if name == "models"@ || name == "model"@ || name == "back"@ {
        r == ChatAction::Back && f.msgs() == ms && same_settings(o, f)
    } else {
        &&& r == ChatAction::Stay
        &&& f.model == o.model && f.tools == o.tools
        &&& if name == "clear"@ {
            f.msgs().len() == 0 && f.scroll == 0 && same_settings(o, f)
        } else if name == "retry"@ {
            let kept = if ms.len() > 0 && ms.last().0 == Role::Assistant { ms.drop_last() } else { ms };
            &&& same_settings(o, f)
            &&& match last_user(kept) {
                Some(i) => f.rounds == 0 && turn_began(o, kept.take(i).push((Role::User, kept[i].1, None)), f),
                None => f.msgs() == kept,
            }
        } else if name == "help"@ || name == "commands"@ {
            f.msgs() == ms.push((Role::System, help_of(), None)) && same_settings(o, f)
        } else if name == "tools"@ {
            &&& f.effort == o.effort && f.mode == o.mode && f.perms == o.perms
            &&& if a1 == Some("off"@) {
                !f.tools_on && f.msgs() == ms.push((Role::System, TOOLS_OFF@, None))
            } else if a1 == Some("on"@) {
                f.tools_on && f.msgs() == ms.push((Role::System, TOOLS_ON@, None))
            } else {
                f.tools_on == o.tools_on && f.msgs() == ms.push((Role::System, tools_text_of(o.tools_on, o.tools@), None))
            }
        } else if name == "permissions"@ || name == "perms"@ {
            &&& f.effort == o.effort && f.tools_on == o.tools_on
            &&& if a1 == Some("mode"@) && a2 is Some {
                f.perms == o.perms && match PermMode::parse_label(a2->0) {
                    Some(m) => f.mode == m && f.msgs() == ms.push((Role::System, mode_note(m), None)),
                    None => f.mode == o.mode && f.msgs() == ms.push((Role::System,
                        "Unknown mode `"@ + a2->0 + "`. Try: "@ + mode_labels(), None)),
                }
            } else if a1 == Some("allow"@) && a2 is Some {
                &&& f.mode == o.mode
                &&& f.perms.names().to_set() == o.perms.names().to_set().insert(a2->0)
                &&& f.perms.bypass() == o.perms.bypass()
                &&& f.msgs() == ms.push((Role::System, "Always allowing `"@ + a2->0 + "`."@, None))
            } else if a1 == Some("allow-all"@) || a1 == Some("bypass"@) {
                f.mode == PermMode::Bypass && f.perms == o.perms && f.msgs() == ms.push((Role::System, BYPASS_ON@, None))
            } else if a1 == Some("reset"@) {
                &&& f.mode == PermMode::Manual
                &&& f.perms.names().len() == 0
                &&& f.perms.bypass() == o.perms.bypass()
                &&& f.msgs() == ms.push((Role::System, PERMS_RESET@, None))
            } else {
                f.mode == o.mode && f.perms == o.perms
                    && f.msgs() == ms.push((Role::System, permissions_text_of(o.perms.bypass(), o.perms.names()), None))
            }
        } else if name == "effort"@ {
            &&& f.mode == o.mode && f.perms == o.perms && f.tools_on == o.tools_on
            &&& match a1 {
                Some(m) => match Effort::parse_label(m) {
                    Some(e) => f.effort == e && f.msgs() == ms.push((Role::System, effort_note(e), None)),
                    None => f.effort == o.effort && f.msgs() == ms.push((Role::System,
                        "Unknown effort `"@ + m + "`. Try: "@ + effort_labels(), None)),
                },
                None => f.effort == o.effort && f.msgs() == ms.push((Role::System,
                    "Effort: **"@ + o.effort.label_of() + "**  ·  "@ + o.effort.hint_of() + EFFORT_USAGE@, None)),
            }
        } else if name == "mode"@ {
            &&& f.effort == o.effort && f.perms == o.perms && f.tools_on == o.tools_on
            &&& match (match a1 { Some(m) => PermMode::parse_label(m), None => Some(o.mode.next_of()) }) {
                Some(m) => f.mode == m && f.msgs() == ms.push((Role::System, mode_note(m), None)),
                None => f.mode == o.mode && f.msgs() == ms,
            }
        } else if name == "status"@ {
            same_settings(o, f) && f.msgs() == ms.push((Role::System, status_text_of(o.model@, o.mode, o.effort,
                o.tools_on, conversation_count(ms, ms.len() as int)), None))
        } else {
            same_settings(o, f) && f.msgs() == ms.push((Role::System, "Unknown command `/"@ + name + "`. Try `/help`."@, None))
        }
    }
}

impl Chat {
    fn note_str(&mut self, text: &str)
        ensures
            final(self).msgs() == old(self).msgs().push((Role::System, text@, None::<Seq<char>>)),
            same_settings(*old(self), *final(self)),
            final(self).scroll == old(self).scroll,
            final(self).rounds == old(self).rounds,
            final(self).pending == old(self).pending,
            final(self).input == old(self).input,
            final(self).outbox_stream == old(self).outbox_stream,
            final(self).outbox_tool == old(self).outbox_tool,
            final(self).streaming == old(self).streaming,
            final(self).tool_running == old(self).tool_running,
            final(self).slash_selected == old(self).slash_selected,
            final(self).running == old(self).running,
            final(self).stream_tokens == old(self).stream_tokens,
    {
        self.note(String::from_str(text));
    }

    /// Runs a slash command (the text after `/`): its first word names it,
    /// the next two are its arguments.
    #[verifier::rlimit(80)]
    #[verifier::spinoff_prover]
    pub fn run_command(&mut self, rest: &str) -> (r: ChatAction)
        requires
            old(self).wf(),
        ensures
            final(self).wf(),
            final(self).slash_selected == old(self).slash_selected,
            final(self).input == old(self).input,
            command_done(*old(self), *final(self), rest@, r),
    {
        let v = chars_of(rest);
        let (w0, w1, w2) = crate::text::first_three_words(&v);
        let empty: Vec<char> = Vec::new();
        assert(empty@ =~= Seq::<char>::empty());
        let name = match w0 {
            Some(w) => w,
            None => empty,
        };
        let a1: Option<String> = match &w1 { Some(w) => Some(crate::text::string_of(w)), None => None };
        let a2: Option<String> = match &w2 { Some(w) => Some(crate::text::string_of(w)), None => None };
        if crate::text::vec_is(&name, "quit") || crate::text::vec_is(&name, "exit") {
            return ChatAction::Quit;
        }
        if crate::text::vec_is(&name, "models") || crate::text::vec_is(&name, "model") || crate::text::vec_is(&name, "back") {
            return ChatAction::Back;
        }
        if crate::text::vec_is(&name, "clear") {
            self.messages = Vec::new();
            self.scroll = 0;
            assert(self.msgs() =~= Seq::<MsgV>::empty());
        } else if crate::text::vec_is(&name, "retry") {
            let n = self.messages.len();
            if n > 0 && self.messages[n - 1].role == Role::Assistant {
                let ghost before = self.msgs();
                self.messages.pop();
                assert(self.msgs() =~= before.drop_last());
            }
            let ghost kept = self.msgs();
            let mut i = self.messages.len();
            assert(kept.take(i as int) =~= kept);
            while i > 0 && self.messages[i - 1].role != Role::User
                invariant
                    i <= self.messages@.len(),
                    kept == self.msgs(),
                    last_user(kept) == last_user(kept.take(i as int)),
                decreases i,
            {
                assert(kept.take(i as int).drop_last() =~= kept.take(i - 1));
                assert(kept.take(i as int).last() == kept[i - 1]);
                i = i - 1;
            }
            if i > 0 {
                let u = i - 1;
                assert(kept.take(i as int).last() == kept[u as int]);
                assert(kept[u as int] == mv(self.messages@[u as int]));
                let prompt = self.messages[u].content.clone();
                self.messages.truncate(u);
                assert(self.msgs() =~= kept.take(u as int));
                let ghost before = self.msgs();
                let m = Message::user(prompt);
                self.messages.push(m);
                assert(self.msgs() =~= before.push(mv(m)));
                self.rounds = 0;
                self.begin_turn();
            } else {
                assert(kept.take(0) =~= Seq::<MsgV>::empty());
            }
        } else if crate::text::vec_is(&name, "help") || crate::text::vec_is(&name, "commands") {
            self.note(help_text());
        } else if crate::text::vec_is(&name, "tools") {
            if opt_is(&a1, "off") {
                self.tools_on = false;
                self.note_str(TOOLS_OFF);
            } else if opt_is(&a1, "on") {
                self.tools_on = true;
                self.note_str(TOOLS_ON);
            } else {
                let t = self.tools_text();
                self.note(t);
            }
        } else if crate::text::vec_is(&name, "permissions") || crate::text::vec_is(&name, "perms") {
            if opt_is(&a1, "mode") && a2.is_some() {
                let m = match &a2 { Some(m) => m, None => return ChatAction::Stay };
                match PermMode::from_label(m.as_str()) {
                    Some(new_mode) => {
                        self.mode = new_mode;
                        let t = self.mode_text();
                        self.note(t);
                    }
                    None => {
                        let mut t = String::from_str("Unknown mode `");
                        push_str(&mut t, m.as_str());
                        push_str(&mut t, "`. Try: ");
                        push_str(&mut t, "manual, accept-edits, plan, auto, bypass");
                        self.note(t);
                    }
                }
            } else if opt_is(&a1, "allow") && a2.is_some() {
                let tool = match &a2 { Some(t) => t.clone(), None => return ChatAction::Stay };
                let mut t = String::from_str("Always allowing `");
                push_str(&mut t, tool.as_str());
                push_str(&mut t, "`.");
                self.perms.allow(tool);
                self.note(t);
            } else if opt_is(&a1, "allow-all") || opt_is(&a1, "bypass") {
                self.mode = PermMode::Bypass;
                self.note_str(BYPASS_ON);
            } else if opt_is(&a1, "reset") {
                self.perms.clear();
                self.mode = PermMode::Manual;
                self.note_str(PERMS_RESET);
            } else {
                let t = self.permissions_text();
                self.note(t);
            }
        } else if crate::text::vec_is(&name, "effort") {
            match &a1 {
                Some(m) => match Effort::from_label(m.as_str()) {
                    Some(e) => {
                        self.effort = e;
                        let mut t = String::from_str("Effort → ");
                        push_str(&mut t, self.effort.badge());
                        push_str(&mut t, "  ·  ");
                        push_str(&mut t, self.effort.system_hint());
                        self.note(t);
                    }
                    None => {
                        let mut t = String::from_str("Unknown effort `");
                        push_str(&mut t, m.as_str());
                        push_str(&mut t, "`. Try: ");
                        push_str(&mut t, "low, medium, high, max");
                        self.note(t);
                    }
                },
                None => {
                    let mut t = String::from_str("Effort: **");
                    push_str(&mut t, self.effort.label());
                    push_str(&mut t, "**  ·  ");
                    push_str(&mut t, self.effort.system_hint());
                    push_str(&mut t, EFFORT_USAGE);
                    self.note(t);
                }
            }
        } else if crate::text::vec_is(&name, "mode") {
            let new_mode = match &a1 {
                Some(m) => PermMode::from_label(m.as_str()),
                None => Some(self.mode.next()),
            };
            if let Some(m) = new_mode {
                self.mode = m;
                let t = self.mode_text();
                self.note(t);
            }
        } else if crate::text::vec_is(&name, "status") {
            let t = self.status_text();
            self.note(t);
        } else {
            let mut t = String::from_str("Unknown command `/");
            push_range(&mut t, &name, 0, name.len());
            push_str(&mut t, "`. Try `/help`.");
            assert(name@.subrange(0, name@.len() as int) =~= name@);
            self.note(t);
        }
        ChatAction::Stay
    }

    /// Sends the input: a slash command runs; anything else starts a turn.
    /// Nothing happens for blank input or while busy.
    pub fn submit(&mut self) -> (r: ChatAction)
        requires
            old(self).wf(),
        ensures
            final(self).wf(),
            final(self).slash_selected == 0,
            ({
                let text = trim(old(self).input@);
                if text.len() == 0 || old(self).is_busy() {
                    r == ChatAction::Stay && final(self).msgs() == old(self).msgs() && final(self).input@.len() == 0
                } else if text[0] == '/' {
                    command_done(*old(self), *final(self), text.drop_first(), r) && final(self).input@.len() == 0
                } else {
                    &&& r == ChatAction::Stay
                    &&& final(self).rounds == 0
                    &&& final(self).input@.len() == 0
                    &&& turn_began(*old(self), old(self).msgs().push((Role::User, text, None)), *final(self))
                }
            }),
    {
        let text = crate::text::trimmed(self.input.as_str());
        self.input = String::new();
        self.slash_selected = 0;
        if text.as_str().is_empty() || self.busy() {
            return ChatAction::Stay;
        }
        let tv = chars_of(text.as_str());
        if tv[0] == '/' {
            let rest = string_of_range(&tv, 1, tv.len());
            assert(tv@.subrange(1, tv@.len() as int) =~= tv@.drop_first());
            return self.run_command(rest.as_str());
        }
        let ghost before = self.msgs();
        let m = Message::user(text);
        self.messages.push(m);
        assert(self.msgs() =~= before.push(mv(m)));
        self.rounds = 0;
        self.begin_turn();
        ChatAction::Stay
    }
}

} // verus!
