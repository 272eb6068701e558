//! The tool engine's data and decisions: what each tool is, what it accepts,
//! what it refuses before touching the machine, and how what it did is
//! reported back to the model.
//!
//! Each tool works in two halves. `prepare` reads the JSON arguments and
//! either refuses or says exactly what to run; the caller runs it (a process,
//! a file operation) and hands the outcome to `finish`, which builds the
//! result the model sees.

use vstd::prelude::*;
use crate::json::{json_str_member, json_u64_member, str_member, u64_member};
use crate::text::{
    find, find_from, chars_of, contains, contains_str, decimal, first_lines, int_decimal, is_byte_prefix_end,
    byte_prefix_end, join, lines_of, push_char, push_decimal, push_int, push_range, push_str,
    utf8_len,
};

verus! {

// ── Tool definition ────────────────────────────────────────────────────────

/// Safety level for a tool invocation.
#[derive(Debug, Clone, Copy, PartialEq, Eq, Structural)]
pub enum ToolSafety {
    /// Read-only, no side effects, auto-approved.
    ReadOnly,
    /// Creates or modifies but is reversible / low-risk.
    Write,
    /// Potentially destructive: requires explicit user approval.
    Destructive,
}

/// A single tool invocation request from the model: the tool's name and its
/// arguments as JSON text.
#[derive(Debug, Clone)]
pub struct ToolRequest {
    pub name: String,
    pub args: String,
}

/// The result of executing a tool.
#[derive(Debug, Clone)]
pub struct ToolResult {
    pub ok: bool,
    pub output: Option<String>,
    pub error: Option<String>,
    /// Optional media path (screenshot, image, etc.)
    pub media: Option<String>,
    /// Execution time in ms.
    pub elapsed_ms: u64,
}

/// Metadata about a tool, used for registration and the UI.
#[derive(Debug, Clone)]
pub struct ToolInfo {
    pub name: String,
    pub description: String,
    pub safety: ToolSafety,
    pub parameters: Vec<ToolParam>,
}

#[derive(Debug, Clone)]
pub struct ToolParam {
    pub name: String,
    pub description: String,
    pub required: bool,
    /// "string", "number" or "boolean".
    pub param_type: String,
}

/// Global safety caps applied to all tool executions.
#[derive(Debug)]
pub struct ToolLimits {
    /// Max shell command output bytes.
    pub max_shell_output: usize,
    /// Max file read size in bytes.
    pub max_file_read: usize,
    /// Max file write size in bytes.
    pub max_file_write: usize,
    /// Shell execution timeout.
    pub shell_timeout: core::time::Duration,
    /// Browser action timeout.
    pub browser_timeout: core::time::Duration,
    /// Process spawn timeout (before auto-kill).
    pub process_timeout: core::time::Duration,
}

impl Clone for ToolLimits {
    fn clone(&self) -> (r: ToolLimits)
        ensures
            r == *self,
    {
        ToolLimits {
            max_shell_output: self.max_shell_output,
            max_file_read: self.max_file_read,
            max_file_write: self.max_file_write,
            shell_timeout: self.shell_timeout,
            browser_timeout: self.browser_timeout,
            process_timeout: self.process_timeout,
        }
    }
}

/// `Duration::from_secs`.
#[verifier::external_body]
fn secs(n: u64) -> (d: core::time::Duration) {
    core::time::Duration::from_secs(n)
}

impl Default for ToolLimits {
    /// 256 KB of shell output, 10 MB reads, 50 MB writes; timeouts of 30 s
    /// (shell), 15 s (browser) and 300 s (process).
    fn default() -> (r: ToolLimits)
        ensures
            r.max_shell_output == 256 * 1024,
            r.max_file_read == 10 * 1024 * 1024,
            r.max_file_write == 50 * 1024 * 1024,
    {
        ToolLimits {
            max_shell_output: 256 * 1024,
            max_file_read: 10 * 1024 * 1024,
            max_file_write: 50 * 1024 * 1024,
            shell_timeout: secs(30),
            browser_timeout: secs(15),
            process_timeout: secs(300),
        }
    }
}

// ── Small builders ─────────────────────────────────────────────────────────

pub open spec fn param_is(p: ToolParam, name: Seq<char>, ty: Seq<char>, required: bool, description: Seq<char>) -> bool {
    p.name@ == name && p.param_type@ == ty && p.required == required && p.description@ == description
}

pub(crate) fn param(name: &str, ty: &str, required: bool, description: &str) -> (p: ToolParam)
    ensures
        param_is(p, name@, ty@, required, description@),
{
    ToolParam {
        name: String::from_str(name),
        description: String::from_str(description),
        required,
        param_type: String::from_str(ty),
    }
}

/// A result that only carries an error.
pub open spec fn is_failure(r: ToolResult, error: Seq<char>) -> bool {
    &&& !r.ok
    &&& r.output is None
    &&& r.error matches Some(e) && e@ == error
    &&& r.media is None
    &&& r.elapsed_ms == 0
}

/// A successful result carrying `output`.
pub open spec fn is_success(r: ToolResult, output: Seq<char>) -> bool {
    &&& r.ok
    &&& r.output matches Some(o) && o@ == output
    &&& r.error is None
    &&& r.media is None
    &&& r.elapsed_ms == 0
}

pub fn failure(error: String) -> (r: ToolResult)
    ensures
        is_failure(r, error@),
{
    ToolResult { ok: false, output: None, error: Some(error), media: None, elapsed_ms: 0 }
}

pub fn success(output: String) -> (r: ToolResult)
    ensures
        is_success(r, output@),
{
    ToolResult { ok: true, output: Some(output), error: None, media: None, elapsed_ms: 0 }
}

fn concat2(a: &str, b: &str) -> (r: String)
    ensures
        r@ == a@ + b@,
{
    let mut s = String::new();
    push_str(&mut s, a);
    push_str(&mut s, b);
    assert(s@ =~= a@ + b@);
    s
}

/// The first pattern of `pats` (from index `i`) that `s` contains.
pub open spec fn first_contained(s: Seq<char>, pats: Seq<Seq<char>>, i: int) -> Option<int>
    decreases pats.len() - i,
{
    if i < 0 || i >= pats.len() {
        None
    } else if contains(s, pats[i]) {
        Some(i)
    } else {
        first_contained(s, pats, i + 1)
    }
}

fn first_contained_exec(v: &Vec<char>, pats: &Vec<&str>, Ghost(ps): Ghost<Seq<Seq<char>>>) -> (r: Option<usize>)
    requires
        pats@.len() == ps.len(),
        forall|k: int| 0 <= k < pats@.len() ==> pats@[k]@ == #[trigger] ps[k],
    ensures
        r matches Some(i) ==> first_contained(v@, ps, 0) == Some(i as int) && i < pats@.len(),
        r is None ==> first_contained(v@, ps, 0) is None,
{
    let mut i: usize = 0;
    while i < pats.len()
        invariant
            pats@.len() == ps.len(),
            forall|k: int| 0 <= k < pats@.len() ==> pats@[k]@ == #[trigger] ps[k],
            i <= pats@.len(),
            first_contained(v@, ps, 0) == first_contained(v@, ps, i as int),
        decreases pats@.len() - i,
    {
        if contains_str(v, pats[i]) {
            assert(contains(v@, ps[i as int]));
            return Some(i);
        }
        i = i + 1;
    }
    None
}

// ── Shell ──────────────────────────────────────────────────────────────────

pub const SHELL_DESCRIPTION: &'static str = "Run a shell command and return its output. Use for: listing files, checking system state, running builds, git operations. Do NOT use for: infinite loops, interactive commands, or commands that modify system configuration without user approval.";

/// Command fragments the shell tool refuses to run.
pub open spec fn shell_blocklist() -> Seq<Seq<char>> {
    seq![
        "rm -rf /"@, ":(){ :|:& };:"@, "mkfs."@, "dd if="@, "> /dev/sda"@,
        "shutdown"@, "reboot"@, "halt"@, "poweroff"@,
    ]
}

/// Runs shell commands with output capture.
pub struct ShellTool {
    limits: ToolLimits,
}

/// What a tool will do with its arguments.
#[derive(Debug, Clone)]
pub enum ShellPlan {
    /// The command was refused before running; this is the result.
    Refuse(ToolResult),
    /// Run `command`, in `cwd` when given.
    Run { command: String, cwd: Option<String> },
}

impl ShellTool {
    pub fn new(limits: ToolLimits) -> (r: ShellTool)
        ensures
            r.limits() == limits,
    {
        ShellTool { limits }
    }

    pub closed spec fn limits(self) -> ToolLimits {
        self.limits
    }

    pub fn info(&self) -> (r: ToolInfo)
        ensures
            r.name@ == "shell"@,
            r.description@ == SHELL_DESCRIPTION@,
            r.safety == ToolSafety::Destructive,
            r.parameters@.len() == 2,
            param_is(r.parameters@[0], "command"@, "string"@, true, "The shell command to execute."@),
            param_is(r.parameters@[1], "cwd"@, "string"@, false, "Working directory for the command (optional)."@),
    {
        ToolInfo {
            name: String::from_str("shell"),
            description: String::from_str(SHELL_DESCRIPTION),
            safety: ToolSafety::Destructive,
            parameters: vec![
                param("command", "string", true, "The shell command to execute."),
                param("cwd", "string", false, "Working directory for the command (optional)."),
            ],
        }
    }

    pub fn safety(&self) -> (r: ToolSafety)
        ensures
            r == ToolSafety::Destructive,
    {
        ToolSafety::Destructive
    }

    /// Reads `command` (required) and `cwd` from the arguments; refuses a
    /// command that contains a blocked fragment, naming the first such
    /// fragment of the list.
    pub fn prepare(&self, args: &str) -> (r: Result<ShellPlan, String>)
        ensures
            json_str_member(args@, "command"@) is None <==> r is Err,
            r matches Err(e) ==> e@ == "Missing required arg: command"@,
            r matches Ok(plan) ==> {
                let cmd = json_str_member(args@, "command"@)->0;
                match first_contained(cmd, shell_blocklist(), 0) {
                    Some(i) => plan matches ShellPlan::Refuse(res)
                        && is_failure(res, "Blocked dangerous command pattern: "@ + shell_blocklist()[i]),
                    None => plan matches ShellPlan::Run { command, cwd }
                        && command@ == cmd
                        && (cwd matches Some(d) ==> json_str_member(args@, "cwd"@) == Some(d@))
                        && (cwd is None ==> json_str_member(args@, "cwd"@) is None),
                }
            },
    {
        let command = match str_member(args, "command") {
            Some(c) => c,
            None => return Err(String::from_str("Missing required arg: command")),
        };
        let cwd = str_member(args, "cwd");
        let v = chars_of(command.as_str());
        let pats: Vec<&str> = vec![
            "rm -rf /", ":(){ :|:& };:", "mkfs.", "dd if=", "> /dev/sda",
            "shutdown", "reboot", "halt", "poweroff",
        ];
        assert forall|k: int| 0 <= k < pats@.len() implies pats@[k]@ == #[trigger] shell_blocklist()[k] by {
        }
        match first_contained_exec(&v, &pats, Ghost(shell_blocklist())) {
            Some(i) => {
                let msg = concat2("Blocked dangerous command pattern: ", pats[i]);
                Ok(ShellPlan::Refuse(failure(msg)))
            }
            None => Ok(ShellPlan::Run { command, cwd }),
        }
    }

    /// The text reported for a finished command: stdout (cut to the output
    /// limit, with a note when cut), then `stderr:` and the error output.
    pub open spec fn output_text(self, stdout: Seq<char>, stderr: Seq<char>) -> Seq<char> {
        let max = self.limits().max_shell_output as nat;
        let out_part = if stdout.len() == 0 {
            Seq::empty()
        } else if utf8_len(stdout) > max {
            stdout.take(choose|k: int| is_byte_prefix_end(stdout, max, k)) + "\n... (output truncated)"@
        } else {
            stdout
        };
        let err_part = if stderr.len() == 0 {
            Seq::empty()
        } else if out_part.len() > 0 {
            seq!['\n'] + "stderr:\n"@ + stderr
        } else {
            "stderr:\n"@ + stderr
        };
        out_part + err_part
    }

    /// The result of a command that ran: `ok` is its success; the output is
    /// `output_text` (absent when empty); a failure carries its exit code
    /// (`-1` when it has none).
    pub fn finish(&self, stdout: &str, stderr: &str, success: bool, code: Option<i32>) -> (r: ToolResult)
        ensures
            r.ok == success,
            r.media is None,
            r.elapsed_ms == 0,
            r.output matches Some(o) ==> o@ == self.output_text(stdout@, stderr@) && o@.len() > 0,
            r.output is None ==> self.output_text(stdout@, stderr@).len() == 0,
            success ==> r.error is None,
            !success ==> (r.error matches Some(e)
                && e@ == "exit code: "@ + int_decimal(match code { Some(c) => c as int, None => -1 })),
    {
        let mut text = String::new();
        let so = chars_of(stdout);
        let se = chars_of(stderr);
        if so.len() > 0 {
            let k = byte_prefix_end(&so, self.limits.max_shell_output);
            push_range(&mut text, &so, 0, k);
            if k < so.len() {
                push_str(&mut text, "\n... (output truncated)");
            }
            proof {
                let max = self.limits().max_shell_output as nat;
                if k < so@.len() {
                    crate::text::lemma_utf8_len_mono(so@, k + 1, so@.len() as int);
                    assert(so@.take(so@.len() as int) =~= so@);
                    assert(utf8_len(so@) > max);
                } else {
                    assert(so@.take(k as int) =~= so@);
                }
                if utf8_len(so@) > max {
                    let j = choose|j: int| is_byte_prefix_end(so@, max, j);
                    lemma_byte_prefix_unique(so@, max, j, k as int);
                }
            }
        }
        let ghost out_part = text@;
        if se.len() > 0 {
            if !text.as_str().is_empty() {
                push_char(&mut text, '\n');
            }
            push_str(&mut text, "stderr:\n");
            push_range(&mut text, &se, 0, se.len());
        }
        proof {
            assert(se@.subrange(0, se@.len() as int) =~= se@);
            assert(so@.subrange(0, so@.len() as int) =~= so@);
            assert(text@ =~= self.output_text(stdout@, stderr@));
        }
        let error = if !success {
            let mut e = String::new();
            push_str(&mut e, "exit code: ");
            let c: i64 = match code { Some(c) => c as i64, None => -1 };
            push_int(&mut e, c);
            Some(e)
        } else {
            None
        };
        let output = if text.as_str().is_empty() { None } else { Some(text) };
        ToolResult { ok: success, output, error, media: None, elapsed_ms: 0 }
    }

    /// The result when the command could not be started.
    pub fn failed_to_start(&self, reason: &str) -> (r: ToolResult)
        ensures
            is_failure(r, "Failed to execute: "@ + reason@),
    {
        failure(concat2("Failed to execute: ", reason))
    }

    /// The result when the command ran past the shell timeout of `secs`
    /// seconds and was stopped.
    pub fn timed_out(&self, secs: u64) -> (r: ToolResult)
        ensures
            is_failure(r, "Command timed out after "@ + decimal(secs as nat) + "s"@),
    {
        let mut m = String::from_str("Command timed out after ");
        push_decimal(&mut m, secs as u128);
        push_str(&mut m, "s");
        failure(m)
    }
}

/// There is only one longest byte-bounded prefix.
pub proof fn lemma_byte_prefix_unique(v: Seq<char>, max: nat, j: int, k: int)
    requires
        is_byte_prefix_end(v, max, j),
        is_byte_prefix_end(v, max, k),
    ensures
        j == k,
{
    if j < k {
        crate::text::lemma_utf8_len_mono(v, j + 1, k);
    } else if k < j {
        crate::text::lemma_utf8_len_mono(v, k + 1, j);
    }
}

// ── Files ──────────────────────────────────────────────────────────────────

pub const FILE_DESCRIPTION: &'static str = "Read or write files on the filesystem. Use 'read' to view a file's contents, 'write' to create or overwrite a file, 'edit' for targeted text replacements.";

/// The extension `std::path::Path::extension` finds in a path: the part of
/// the last component after its last `.`, unless that `.` starts it.
pub uninterp spec fn path_extension_of(path: Seq<char>) -> Option<Seq<char>>;

/// `Path::new(path).extension()`, as text.
#[verifier::external_body]
fn path_extension(path: &str) -> (r: Option<String>)
    ensures
        r matches Some(e) ==> path_extension_of(path@) == Some(e@),
        r is None ==> path_extension_of(path@) is None,
{
    std::path::Path::new(path).extension().and_then(|e| e.to_str()).map(|e| e.to_string())
}

/// File types the file tool will not read as text.
pub open spec fn binary_extensions() -> Seq<Seq<char>> {
    seq![
        "exe"@, "dll"@, "so"@, "dylib"@, "bin"@, "dat"@, "db"@, "sqlite"@,
        "png"@, "jpg"@, "jpeg"@, "gif"@, "mp4"@, "mp3"@, "zip"@, "tar"@, "gz"@,
    ]
}

/// Reads, writes and edits files.
pub struct FilesystemTool {
    limits: ToolLimits,
}

/// A file operation the arguments ask for.
#[derive(Debug, Clone)]
pub enum FileOp {
    Read { path: String },
    Write { path: String, content: String },
    Edit { path: String, old_text: String, new_text: String },
}

/// Non-overlapping occurrences of `p` in `s` from `i`, left to right, as
/// `str::matches` counts them (an empty pattern matches at every boundary).
pub open spec fn count_from(s: Seq<char>, p: Seq<char>, i: int) -> nat
    decreases s.len() - i + 1,
{
    if p.len() == 0 {
        (s.len() + 1) as nat
    } else if i < 0 {
        0
    } else {
        match find_from(s, p, i) {
            Some(k) => {
                proof {
                    crate::text::lemma_find_from_bounds(s, p, i);
                }
                1 + count_from(s, p, k + p.len())
            },
            None => 0,
        }
    }
}

/// `s.replacen(p, n, 1)`: the first occurrence of `p` replaced by `n`.
pub open spec fn replace_first(s: Seq<char>, p: Seq<char>, n: Seq<char>) -> Seq<char> {
    match find(s, p) {
        Some(k) => s.take(k) + n + s.skip(k + p.len()),
        None => s,
    }
}

fn count_matches(v: &Vec<char>, p: &Vec<char>) -> (r: u128)
    ensures
        r == count_from(v@, p@, 0),
{
    let n = v.len();
    if p.len() == 0 {
        return n as u128 + 1;
    }
    let mut count: u128 = 0;
    let mut i: usize = 0;
    loop
        invariant
            n == v@.len(),
            p@.len() > 0,
            i <= v@.len(),
            count <= i,
            count + count_from(v@, p@, i as int) == count_from(v@, p@, 0),
        decreases v@.len() - i,
    {
        proof {
            crate::text::lemma_find_from_bounds(v@, p@, i as int);
        }
        match crate::text::find_vec(v, p, i) {
            Some(k) => {
                count = count + 1;
                i = k + p.len();
            }
            None => {
                return count;
            }
        }
    }
}

impl FilesystemTool {
    pub fn new(limits: ToolLimits) -> (r: FilesystemTool)
        ensures
            r.limits() == limits,
    {
        FilesystemTool { limits }
    }

    pub closed spec fn limits(self) -> ToolLimits {
        self.limits
    }

    pub fn info(&self) -> (r: ToolInfo)
        ensures
            r.name@ == "file"@,
            r.description@ == FILE_DESCRIPTION@,
            r.safety == ToolSafety::Write,
            r.parameters@.len() == 5,
            param_is(r.parameters@[0], "action"@, "string"@, true, "One of: read, write, edit"@),
            param_is(r.parameters@[1], "path"@, "string"@, true, "Absolute or relative file path."@),
            param_is(r.parameters@[2], "content"@, "string"@, false, "Content to write (required for write action)."@),
            param_is(r.parameters@[3], "old_text"@, "string"@, false, "Text to find and replace (required for edit action)."@),
            param_is(r.parameters@[4], "new_text"@, "string"@, false, "Replacement text (required for edit action)."@),
    {
        ToolInfo {
            name: String::from_str("file"),
            description: String::from_str(FILE_DESCRIPTION),
            safety: ToolSafety::Write,
            parameters: vec![
                param("action", "string", true, "One of: read, write, edit"),
                param("path", "string", true, "Absolute or relative file path."),
                param("content", "string", false, "Content to write (required for write action)."),
                param("old_text", "string", false, "Text to find and replace (required for edit action)."),
                param("new_text", "string", false, "Replacement text (required for edit action)."),
            ],
        }
    }

    pub fn safety(&self) -> (r: ToolSafety)
        ensures
            r == ToolSafety::Write,
    {
        ToolSafety::Write
    }

    /// Reads `action` and `path`, then what the action needs.
    pub fn prepare(&self, args: &str) -> (r: Result<FileOp, String>)
        ensures
            ({
                let action = json_str_member(args@, "action"@);
                let path = json_str_member(args@, "path"@);
                let content = json_str_member(args@, "content"@);
                let old_t = json_str_member(args@, "old_text"@);
                let new_t = json_str_member(args@, "new_text"@);
                if action is None {
                    r matches Err(e) && e@ == "Missing required arg: action (read|write|edit)"@
                } else if path is None {
                    r matches Err(e) && e@ == "Missing required arg: path"@
                } else if action->0 == "read"@ {
                    r matches Ok(FileOp::Read { path: p }) && p@ == path->0
                } else if action->0 == "write"@ {
                    if content is None {
                        r matches Err(e) && e@ == "Missing required arg: content"@
                    } else {
                        r matches Ok(FileOp::Write { path: p, content: c }) && p@ == path->0 && c@ == content->0
                    }
                } else if action->0 == "edit"@ {
                    if old_t is None {
                        r matches Err(e) && e@ == "Missing required arg: old_text"@
                    } else if new_t is None {
                        r matches Err(e) && e@ == "Missing required arg: new_text"@
                    } else {
                        r matches Ok(FileOp::Edit { path: p, old_text: o, new_text: n })
                            && p@ == path->0 && o@ == old_t->0 && n@ == new_t->0
                    }
                } else {
                    r matches Err(e) && e@ == "Unknown file action: "@ + action->0 + ". Use read, write, or edit."@
                }
            }),
    {
        let action = match str_member(args, "action") {
            Some(a) => a,
            None => return Err(String::from_str("Missing required arg: action (read|write|edit)")),
        };
        let path = match str_member(args, "path") {
            Some(p) => p,
            None => return Err(String::from_str("Missing required arg: path")),
        };
        let av = chars_of(action.as_str());
        if crate::text::vec_is(&av, "read") {
            Ok(FileOp::Read { path })
        } else if crate::text::vec_is(&av, "write") {
            match str_member(args, "content") {
                Some(content) => Ok(FileOp::Write { path, content }),
                None => Err(String::from_str("Missing required arg: content")),
            }
        } else if crate::text::vec_is(&av, "edit") {
            let old_text = match str_member(args, "old_text") {
                Some(o) => o,
                None => return Err(String::from_str("Missing required arg: old_text")),
            };
            match str_member(args, "new_text") {
                Some(new_text) => Ok(FileOp::Edit { path, old_text, new_text }),
                None => Err(String::from_str("Missing required arg: new_text")),
            }
        } else {
            let mut e = String::new();
            push_str(&mut e, "Unknown file action: ");
            push_str(&mut e, action.as_str());
            push_str(&mut e, ". Use read, write, or edit.");
            assert(e@ =~= "Unknown file action: "@ + action@ + ". Use read, write, or edit."@);
            Err(e)
        }
    }

    /// Refuses to read a file whose extension marks it as binary.
    pub fn read_refusal(&self, path: &str) -> (r: Option<ToolResult>)
        ensures
            match path_extension_of(path@) {
                Some(ext) => if binary_extensions().contains(ext) {
                    r matches Some(res) && is_failure(res, "Binary file type ."@ + ext + " — use a different tool to inspect"@)
                } else {
                    r is None
                },
                None => r is None,
            },
    {
        let ext = match path_extension(path) {
            Some(e) => e,
            None => return None,
        };
        let ev = chars_of(ext.as_str());
        let exts: Vec<&str> = vec![
            "exe", "dll", "so", "dylib", "bin", "dat", "db", "sqlite",
            "png", "jpg", "jpeg", "gif", "mp4", "mp3", "zip", "tar", "gz",
        ];
        assert forall|k: int| 0 <= k < exts@.len() implies exts@[k]@ == #[trigger] binary_extensions()[k] by {
        }
        let mut i: usize = 0;
        while i < exts.len()
            invariant
                ev@ == ext@,
                path_extension_of(path@) == Some(ext@),
                exts@.len() == binary_extensions().len(),
                forall|k: int| 0 <= k < exts@.len() ==> exts@[k]@ == #[trigger] binary_extensions()[k],
                i <= exts@.len(),
                forall|k: int| 0 <= k < i ==> binary_extensions()[k] != ext@,
            decreases exts@.len() - i,
        {
            if crate::text::vec_is(&ev, exts[i]) {
                assert(binary_extensions()[i as int] == ext@);
                assert(binary_extensions().contains(ext@));
                let mut e = String::new();
                push_str(&mut e, "Binary file type .");
                push_str(&mut e, ext.as_str());
                push_str(&mut e, " — use a different tool to inspect");
                assert(e@ =~= "Binary file type ."@ + ext@ + " — use a different tool to inspect"@);
                return Some(failure(e));
            }
            i = i + 1;
        }
        assert(!binary_extensions().contains(ext@));
        None
    }

    /// Refuses a file larger than the read limit.
    pub fn size_refusal(&self, size: u64) -> (r: Option<ToolResult>)
        ensures
            size > self.limits().max_file_read ==> (r matches Some(res) && is_failure(res,
                "File too large: "@ + decimal(size as nat) + " (limit: "@
                    + decimal((self.limits().max_file_read / 1048576usize) as nat) + "MB)"@)),
            size <= self.limits().max_file_read ==> r is None,
    {
        if size > self.limits.max_file_read as u64 {
            let mut e = String::new();
            push_str(&mut e, "File too large: ");
            push_decimal(&mut e, size as u128);
            push_str(&mut e, " (limit: ");
            push_decimal(&mut e, (self.limits.max_file_read / (1024 * 1024)) as u128);
            push_str(&mut e, "MB)");
            Some(failure(e))
        } else {
            None
        }
    }

    /// What reading a file shows: the whole text, or its first 200 lines and
    /// a note of how many lines there are.
    pub open spec fn preview_of(contents: Seq<char>) -> Seq<char> {
        let ls = lines_of(contents);
        if ls.len() > 200 {
            join(ls.take(200), seq!['\n']) + "\n... ("@ + decimal(ls.len()) + " lines total, showing first 200)"@
        } else {
            contents
        }
    }

    pub fn read_done(&self, contents: &str) -> (r: ToolResult)
        ensures
            is_success(r, Self::preview_of(contents@)),
    {
        let v = chars_of(contents);
        let (head, n) = first_lines(&v, 200);
        if n > 200 {
            let mut s = head;
            push_str(&mut s, "\n... (");
            push_decimal(&mut s, n as u128);
            push_str(&mut s, " lines total, showing first 200)");
            success(s)
        } else {
            success(crate::text::string_of(&v))
        }
    }

    /// Refuses content larger than the write limit.
    pub fn write_refusal(&self, content: &str) -> (r: Option<ToolResult>)
        ensures
            utf8_len(content@) > self.limits().max_file_write ==> (r matches Some(res) && is_failure(res,
                "Content too large: "@ + decimal((utf8_len(content@) as usize) as nat) + " (limit: "@
                    + decimal((self.limits().max_file_write / 1048576usize) as nat) + "MB)"@)),
            utf8_len(content@) <= self.limits().max_file_write ==> r is None,
    {
        let v = chars_of(content);
        let k = byte_prefix_end(&v, self.limits.max_file_write);
        proof {
            assert(v@.take(v@.len() as int) =~= v@);
            if k < v@.len() {
                crate::text::lemma_utf8_len_mono(v@, k + 1, v@.len() as int);
            }
        }
        if k < v.len() {
            let mut e = String::new();
            push_str(&mut e, "Content too large: ");
            push_decimal(&mut e, crate::text::byte_len(content) as u128);
            push_str(&mut e, " (limit: ");
            push_decimal(&mut e, (self.limits.max_file_write / (1024 * 1024)) as u128);
            push_str(&mut e, "MB)");
            Some(failure(e))
        } else {
            None
        }
    }

    /// What a finished write reports: `Overwrote` or `Created`, the path and
    /// the size in bytes.
    pub fn write_done(&self, path: &str, existed: bool, size: usize) -> (r: ToolResult)
        ensures
            is_success(r, (if existed { "Overwrote "@ } else { "Created "@ }) + path@ + " ("@
                + decimal(size as nat) + " bytes)"@),
    {
        let mut s = String::new();
        if existed {
            push_str(&mut s, "Overwrote ");
        } else {
            push_str(&mut s, "Created ");
        }
        push_str(&mut s, path);
        push_str(&mut s, " (");
        push_decimal(&mut s, size as u128);
        push_str(&mut s, " bytes)");
        success(s)
    }

    /// An edit replaces exactly one occurrence: the new file text, or the
    /// refusal when `old_text` is missing or not unique.
    pub fn edit_apply(&self, current: &str, old_text: &str, new_text: &str) -> (r: Result<String, ToolResult>)
        ensures
            !crate::text::contains(current@, old_text@) ==> (r matches Err(res) && is_failure(res, "old_text not found in file"@)),
            crate::text::contains(current@, old_text@) && count_from(current@, old_text@, 0) > 1 ==> (r matches Err(res)
                && is_failure(res, "old_text matched "@ + decimal(count_from(current@, old_text@, 0)) + " times — must be unique. Provide more context."@)),
            crate::text::contains(current@, old_text@) && count_from(current@, old_text@, 0) <= 1 ==> (r matches Ok(m)
                && m@ == replace_first(current@, old_text@, new_text@)),
    {
        let o = chars_of(current);
        let p = chars_of(old_text);
        proof {
            crate::text::lemma_find_from_bounds(o@, p@, 0);
        }
        let on = o.len();
        let k = match crate::text::find_vec(&o, &p, 0) {
            Some(k) => k,
            None => return Err(failure(String::from_str("old_text not found in file"))),
        };
        let count = count_matches(&o, &p);
        if count > 1 {
            let mut e = String::new();
            push_str(&mut e, "old_text matched ");
            push_decimal(&mut e, count);
            push_str(&mut e, " times — must be unique. Provide more context.");
            return Err(failure(e));
        }
        let mut m = String::new();
        push_range(&mut m, &o, 0, k);
        push_str(&mut m, new_text);
        push_range(&mut m, &o, k + p.len(), on);
        assert(o@.subrange(0, k as int) =~= o@.take(k as int));
        assert(o@.subrange(k + p@.len(), o@.len() as int) =~= o@.skip(k + p@.len()));
        assert(m@ =~= replace_first(current@, old_text@, new_text@));
        Ok(m)
    }

    pub fn edit_done(&self, path: &str) -> (r: ToolResult)
        ensures
            is_success(r, "Edited "@ + path@ + " — 1 replacement"@),
    {
        let mut s = String::new();
        push_str(&mut s, "Edited ");
        push_str(&mut s, path);
        push_str(&mut s, " — 1 replacement");
        success(s)
    }
}

// ── Processes ──────────────────────────────────────────────────────────────

pub const PROCESS_DESCRIPTION: &'static str = "List running processes or manage background tasks. Use 'list' to see what's running, 'spawn' to start a background command, 'kill' to stop a process by PID.";

/// Command fragments that look like runaway loops.
pub open spec fn spawn_blocklist() -> Seq<Seq<char>> {
    seq!["fork bomb"@, ":(){"@, "while true"@, "yes "@]
}

/// Lists, spawns and kills processes.
pub struct ProcessTool {
    limits: ToolLimits,
}

/// A process operation the arguments ask for.
#[derive(Debug, Clone)]
pub enum ProcessOp {
    List,
    Spawn { command: String },
    Kill { pid: u64 },
}

impl ProcessTool {
    pub fn new(limits: ToolLimits) -> (r: ProcessTool)
        ensures
            r.limits() == limits,
    {
        ProcessTool { limits }
    }

    pub closed spec fn limits(self) -> ToolLimits {
        self.limits
    }

    pub fn info(&self) -> (r: ToolInfo)
        ensures
            r.name@ == "process"@,
            r.description@ == PROCESS_DESCRIPTION@,
            r.safety == ToolSafety::Destructive,
            r.parameters@.len() == 3,
            param_is(r.parameters@[0], "action"@, "string"@, true, "One of: list, spawn, kill"@),
            param_is(r.parameters@[1], "command"@, "string"@, false, "Command to run (required for spawn)."@),
            param_is(r.parameters@[2], "pid"@, "number"@, false, "Process ID to kill (required for kill)."@),
    {
        ToolInfo {
            name: String::from_str("process"),
            description: String::from_str(PROCESS_DESCRIPTION),
            safety: ToolSafety::Destructive,
            parameters: vec![
                param("action", "string", true, "One of: list, spawn, kill"),
                param("command", "string", false, "Command to run (required for spawn)."),
                param("pid", "number", false, "Process ID to kill (required for kill)."),
            ],
        }
    }

    pub fn safety(&self) -> (r: ToolSafety)
        ensures
            r == ToolSafety::Destructive,
    {
        ToolSafety::Destructive
    }

    pub fn prepare(&self, args: &str) -> (r: Result<ProcessOp, String>)
        ensures
            ({
                let action = json_str_member(args@, "action"@);
                if action is None {
                    r matches Err(e) && e@ == "Missing required arg: action (list|spawn|kill)"@
                } else if action->0 == "list"@ {
                    r matches Ok(ProcessOp::List)
                } else if action->0 == "spawn"@ {
                    match json_str_member(args@, "command"@) {
                        Some(c) => r matches Ok(ProcessOp::Spawn { command }) && command@ == c,
                        None => r matches Err(e) && e@ == "Missing required arg: command"@,
                    }
                } else if action->0 == "kill"@ {
                    match json_u64_member(args@, "pid"@) {
                        Some(p) => r matches Ok(ProcessOp::Kill { pid }) && pid == p,
                        None => r matches Err(e) && e@ == "Missing required arg: pid"@,
                    }
                } else {
                    r matches Err(e) && e@ == "Unknown process action: "@ + action->0
                }
            }),
    {
        let action = match str_member(args, "action") {
            Some(a) => a,
            None => return Err(String::from_str("Missing required arg: action (list|spawn|kill)")),
        };
        let av = chars_of(action.as_str());
        if crate::text::vec_is(&av, "list") {
            Ok(ProcessOp::List)
        } else if crate::text::vec_is(&av, "spawn") {
            match str_member(args, "command") {
                Some(command) => Ok(ProcessOp::Spawn { command }),
                None => Err(String::from_str("Missing required arg: command")),
            }
        } else if crate::text::vec_is(&av, "kill") {
            match u64_member(args, "pid") {
                Some(pid) => Ok(ProcessOp::Kill { pid }),
                None => Err(String::from_str("Missing required arg: pid")),
            }
        } else {
            Err(concat2("Unknown process action: ", action.as_str()))
        }
    }

    /// Refuses a command that looks like a runaway loop.
    pub fn spawn_refusal(&self, command: &str) -> (r: Option<ToolResult>)
        ensures
            first_contained(command@, spawn_blocklist(), 0) is Some ==> (r matches Some(res)
                && is_failure(res, "Blocked potentially infinite command"@)),
            first_contained(command@, spawn_blocklist(), 0) is None ==> r is None,
    {
        let v = chars_of(command);
        let pats: Vec<&str> = vec!["fork bomb", ":(){", "while true", "yes "];
        assert forall|k: int| 0 <= k < pats@.len() implies pats@[k]@ == #[trigger] spawn_blocklist()[k] by {
        }
        match first_contained_exec(&v, &pats, Ghost(spawn_blocklist())) {
            Some(_) => Some(failure(String::from_str("Blocked potentially infinite command"))),
            None => None,
        }
    }

    /// The process listing: its first 30 lines.
    pub fn list_done(&self, listing: &str) -> (r: ToolResult)
        ensures
            is_success(r, join(lines_of(listing@).take(
                if 30 < lines_of(listing@).len() { 30 } else { lines_of(listing@).len() as int }), seq!['\n'])),
    {
        let v = chars_of(listing);
        let (head, _n) = first_lines(&v, 30);
        success(head)
    }

    pub fn list_failed(&self, reason: &str) -> (r: ToolResult)
        ensures
            is_failure(r, "Failed to list processes: "@ + reason@),
    {
        failure(concat2("Failed to list processes: ", reason))
    }

    pub fn spawned(&self, pid: u32) -> (r: ToolResult)
        ensures
            is_success(r, "Spawned process PID "@ + decimal(pid as nat)),
    {
        let mut s = String::new();
        push_str(&mut s, "Spawned process PID ");
        push_decimal(&mut s, pid as u128);
        success(s)
    }

    pub fn spawn_failed(&self, reason: &str) -> (r: ToolResult)
        ensures
            is_failure(r, "Failed to spawn: "@ + reason@),
    {
        failure(concat2("Failed to spawn: ", reason))
    }

    /// A kill that the system command carried out, whatever it reported.
    pub fn killed(&self, pid: u64) -> (r: ToolResult)
        ensures
            is_success(r, "Killed process "@ + decimal(pid as nat)),
    {
        let mut s = String::new();
        push_str(&mut s, "Killed process ");
        push_decimal(&mut s, pid as u128);
        success(s)
    }

    pub fn kill_failed(&self, pid: u64, reason: &str) -> (r: ToolResult)
        ensures
            is_failure(r, "Failed to kill PID "@ + decimal(pid as nat) + ": "@ + reason@),
    {
        let mut s = String::new();
        push_str(&mut s, "Failed to kill PID ");
        push_decimal(&mut s, pid as u128);
        push_str(&mut s, ": ");
        push_str(&mut s, reason);
        failure(s)
    }
}

// ── Desktop ────────────────────────────────────────────────────────────────

pub const DESKTOP_DESCRIPTION: &'static str = "Take screenshots of the desktop to see what's on screen. Use to inspect UI, read error messages, or verify visual state before interacting. Returns the file path of the screenshot.";

/// Takes screenshots.
pub struct DesktopTool;

/// How one screenshot backend fared on Linux.
#[derive(Debug, Clone)]
pub enum Attempt {
    /// The program is not installed.
    Missing,
    /// It ran and failed, printing this on stderr.
    Failed { stderr: String },
}

/// Does this error output say there is no display?
pub open spec fn mentions_display(stderr: Seq<char>) -> bool {
    contains(stderr, "X server"@) || contains(stderr, "display"@) || contains(stderr, "DISPLAY"@)
}

/// The message kept from the last backend that reported a missing display.
pub open spec fn display_error_from(cmds: Seq<Seq<char>>, attempts: Seq<Attempt>, n: int) -> Seq<char>
    decreases n,
{
    if n <= 0 {
        Seq::empty()
    } else if attempts[n - 1] matches Attempt::Failed { stderr } && mentions_display(stderr@) {
        cmds[n - 1] + " present but no display available"@
    } else {
        display_error_from(cmds, attempts, n - 1)
    }
}

/// The Linux screenshot error after every backend failed.
pub open spec fn linux_capture_error(cmds: Seq<Seq<char>>, attempts: Seq<Attempt>) -> Seq<char> {
    let found_any = exists|i: int| 0 <= i < attempts.len() && #[trigger] attempts[i] is Failed;
    let display = display_error_from(cmds, attempts, attempts.len() as int);
    if display.len() > 0 {
        "Screenshot tools found but no graphical display is available. This host runs headless — screenshots require a desktop environment. Details: "@ + display
    } else if found_any {
        "Screenshot tools are installed but failed to capture. Is a desktop environment running?"@
    } else {
        "No screenshot tool found. Install: sudo apt install imagemagick"@
    }
}

impl DesktopTool {
    pub fn new() -> (r: DesktopTool) {
        DesktopTool
    }

    pub fn info(&self) -> (r: ToolInfo)
        ensures
            r.name@ == "desktop"@,
            r.description@ == DESKTOP_DESCRIPTION@,
            r.safety == ToolSafety::ReadOnly,
            r.parameters@.len() == 2,
            param_is(r.parameters@[0], "action"@, "string"@, true, "Action: 'screenshot' to capture the full screen"@),
            param_is(r.parameters@[1], "path"@, "string"@, false, "Where to save the screenshot (optional, defaults to temp file)"@),
    {
        ToolInfo {
            name: String::from_str("desktop"),
            description: String::from_str(DESKTOP_DESCRIPTION),
            safety: ToolSafety::ReadOnly,
            parameters: vec![
                param("action", "string", true, "Action: 'screenshot' to capture the full screen"),
                param("path", "string", false, "Where to save the screenshot (optional, defaults to temp file)"),
            ],
        }
    }

    pub fn safety(&self) -> (r: ToolSafety)
        ensures
            r == ToolSafety::ReadOnly,
    {
        ToolSafety::ReadOnly
    }

    /// Where to save a screenshot: the `path` argument, or a file in `/tmp`
    /// named after the current time in seconds.
    pub fn prepare(&self, args: &str, now_secs: u64) -> (r: Result<String, String>)
        ensures
            ({
                let action = json_str_member(args@, "action"@);
                if action is None {
                    r matches Err(e) && e@ == "Missing action (use 'screenshot')"@
                } else if action->0 == "screenshot"@ {
                    r matches Ok(p) && p@ == match json_str_member(args@, "path"@) {
                        Some(given) => given,
                        None => "/tmp/llamachat-screenshot-"@ + decimal(now_secs as nat) + ".png"@,
                    }
                } else {
                    r matches Err(e) && e@ == "Unknown desktop action: "@ + action->0
                }
            }),
    {
        let action = match str_member(args, "action") {
            Some(a) => a,
            None => return Err(String::from_str("Missing action (use 'screenshot')")),
        };
        let av = chars_of(action.as_str());
        if crate::text::vec_is(&av, "screenshot") {
            match str_member(args, "path") {
                Some(p) => Ok(p),
                None => {
                    let mut p = String::new();
                    push_str(&mut p, "/tmp/llamachat-screenshot-");
                    push_decimal(&mut p, now_secs as u128);
                    push_str(&mut p, ".png");
                    Ok(p)
                }
            }
        } else {
            Err(concat2("Unknown desktop action: ", action.as_str()))
        }
    }

    /// A captured screenshot: reported by path, and carried as media.
    pub fn captured(&self, path: &str) -> (r: ToolResult)
        ensures
            r.ok,
            r.output matches Some(o) && o@ == "Screenshot saved: "@ + path@,
            r.error is None,
            r.media matches Some(m) && m@ == path@,
            r.elapsed_ms == 0,
    {
        ToolResult {
            ok: true,
            output: Some(concat2("Screenshot saved: ", path)),
            error: None,
            media: Some(String::from_str(path)),
            elapsed_ms: 0,
        }
    }

    pub fn capture_failed(&self, reason: String) -> (r: ToolResult)
        ensures
            is_failure(r, reason@),
    {
        failure(reason)
    }

    /// The Linux backends, in the order they are tried, with their arguments.
    pub fn linux_backends(path: &str) -> (r: Vec<(String, Vec<String>)>)
        ensures
            r@.len() == 5,
            r@[0].0@ == "import"@,
            r@[1].0@ == "gnome-screenshot"@,
            r@[2].0@ == "scrot"@,
            r@[3].0@ == "grim"@,
            r@[4].0@ == "spectacle"@,
            r@[0].1@.len() == 3 && r@[0].1@[0]@ == "-window"@ && r@[0].1@[1]@ == "root"@ && r@[0].1@[2]@ == path@,
            r@[1].1@.len() == 2 && r@[1].1@[0]@ == "-f"@ && r@[1].1@[1]@ == path@,
            r@[2].1@.len() == 1 && r@[2].1@[0]@ == path@,
            r@[3].1@.len() == 1 && r@[3].1@[0]@ == path@,
            r@[4].1@.len() == 4 && r@[4].1@[0]@ == "-b"@ && r@[4].1@[1]@ == "-n"@ && r@[4].1@[2]@ == "-o"@
                && r@[4].1@[3]@ == path@,
    {
        vec![
            (String::from_str("import"), vec![String::from_str("-window"), String::from_str("root"), String::from_str(path)]),
            (String::from_str("gnome-screenshot"), vec![String::from_str("-f"), String::from_str(path)]),
            (String::from_str("scrot"), vec![String::from_str(path)]),
            (String::from_str("grim"), vec![String::from_str(path)]),
            (String::from_str("spectacle"), vec![String::from_str("-b"), String::from_str("-n"), String::from_str("-o"), String::from_str(path)]),
        ]
    }

    /// The error after every Linux backend failed to capture: a missing
    /// display wins (naming the last backend that reported one), then
    /// installed-but-failed, then none installed.
    pub fn linux_failure(cmds: &Vec<String>, attempts: &Vec<Attempt>) -> (r: String)
        requires
            cmds@.len() == attempts@.len(),
        ensures
            r@ == linux_capture_error(cmds@.map_values(|c: String| c@), attempts@),
    {
        let ghost cs = cmds@.map_values(|c: String| c@);
        let mut found_any = false;
        let mut last = String::new();
        let mut i: usize = 0;
        while i < attempts.len()
            invariant
                cmds@.len() == attempts@.len(),
                cs == cmds@.map_values(|c: String| c@),
                i <= attempts@.len(),
                found_any == exists|j: int| 0 <= j < i && #[trigger] attempts@[j] is Failed,
                last@ == display_error_from(cs, attempts@, i as int),
            decreases attempts@.len() - i,
        {
            match &attempts[i] {
                Attempt::Missing => {}
                Attempt::Failed { stderr } => {
                    found_any = true;
                    let ev = chars_of(stderr.as_str());
                    if contains_str(&ev, "X server") || contains_str(&ev, "display") || contains_str(&ev, "DISPLAY") {
                        last = concat2(cmds[i].as_str(), " present but no display available");
                    }
                }
            }
            proof {
                assert(display_error_from(cs, attempts@, i + 1) == (if attempts@[i as int] matches Attempt::Failed { stderr } && mentions_display(stderr@) {
                    cs[i as int] + " present but no display available"@
                } else {
                    display_error_from(cs, attempts@, i as int)
                }));
            }
            i = i + 1;
        }
        proof {
            reveal_strlit(" present but no display available");
            assert(" present but no display available"@.len() > 0);
        }
        if !last.as_str().is_empty() {
            concat2("Screenshot tools found but no graphical display is available. This host runs headless — screenshots require a desktop environment. Details: ", last.as_str())
        } else if found_any {
            String::from_str("Screenshot tools are installed but failed to capture. Is a desktop environment running?")
        } else {
            String::from_str("No screenshot tool found. Install: sudo apt install imagemagick")
        }
    }
}

// ── Registry policy ────────────────────────────────────────────────────────

/// What the registry decides about a request before running it.
#[derive(Debug, Clone, Copy, PartialEq, Eq, Structural)]
pub enum Gate {
    /// No tool of that name is registered.
    Unknown,
    /// The tool is destructive and destructive tools are switched off.
    DestructiveDisabled,
    /// The tool is destructive and web content has been read this turn.
    WebLocked,
    /// Run it.
    Run,
}

/// Does a call of a tool with this safety (or of an unknown tool) need the
/// user's approval? Only destructive and unknown tools do.
pub fn needs_approval(safety: Option<ToolSafety>) -> (r: bool)
    ensures
        r == (safety is None || safety == Some(ToolSafety::Destructive)),
{
    match safety {
        Some(ToolSafety::ReadOnly) | Some(ToolSafety::Write) => false,
        Some(ToolSafety::Destructive) => true,
        None => true,
    }
}

/// The registry's check before running a tool: unknown tools are refused;
/// destructive ones only run when allowed and while no web content is in
/// context.
pub fn gate(safety: Option<ToolSafety>, destructive_allowed: bool, web_context_active: bool) -> (r: Gate)
    ensures
        safety is None ==> r == Gate::Unknown,
        safety == Some(ToolSafety::Destructive) && !destructive_allowed ==> r == Gate::DestructiveDisabled,
        safety == Some(ToolSafety::Destructive) && destructive_allowed && web_context_active ==> r == Gate::WebLocked,
        safety is Some && (safety != Some(ToolSafety::Destructive) || (destructive_allowed && !web_context_active))
            ==> r == Gate::Run,
{
    match safety {
        None => Gate::Unknown,
        Some(ToolSafety::Destructive) => {
            if !destructive_allowed {
                Gate::DestructiveDisabled
            } else if web_context_active {
                Gate::WebLocked
            } else {
                Gate::Run
            }
        }
        Some(_) => Gate::Run,
    }
}

/// The refusal for a gate that does not let the tool run.
pub fn gate_refusal(name: &str, g: Gate) -> (r: Option<ToolResult>)
    ensures
        g == Gate::Run ==> r is None,
        g == Gate::Unknown ==> (r matches Some(res) && is_failure(res, "Unknown tool: "@ + name@)),
        g == Gate::DestructiveDisabled ==> (r matches Some(res)
            && is_failure(res, "Destructive tools are disabled. Enable in settings."@)),
        g == Gate::WebLocked ==> (r matches Some(res) && is_failure(res,
            "Web content is in context, so destructive tools are disabled for the rest of this turn. This is a safety guard — web pages can contain hidden instructions."@)),
{
    match g {
        Gate::Run => None,
        Gate::Unknown => Some(failure(concat2("Unknown tool: ", name))),
        Gate::DestructiveDisabled => Some(failure(String::from_str("Destructive tools are disabled. Enable in settings."))),
        Gate::WebLocked => Some(failure(String::from_str(
            "Web content is in context, so destructive tools are disabled for the rest of this turn. This is a safety guard — web pages can contain hidden instructions.",
        ))),
    }
}

/// After a tool ran: does its result put web content into context? Only a
/// successful `web_search` or `read_page` does.
pub fn brings_web_content(name: &str, ok: bool) -> (r: bool)
    ensures
        r == (ok && (name@ == "web_search"@ || name@ == "read_page"@)),
{
    let v = chars_of(name);
    ok && (crate::text::vec_is(&v, "web_search") || crate::text::vec_is(&v, "read_page"))
}

/// The result of a tool call that returned an error instead of a result.
pub fn errored(error: String) -> (r: ToolResult)
    ensures
        is_failure(r, error@),
{
    failure(error)
}

/// The registry's safety state across a turn: whether destructive tools
/// are allowed, and whether web content has entered the context. Once a
/// web tool has returned content, destructive tools stay locked until the
/// next turn starts — web pages can carry hidden instructions.
pub struct Gatekeeper {
    destructive_allowed: bool,
    web_context_active: bool,
}

impl Gatekeeper {
    /// Are destructive tools allowed?
    pub closed spec fn allows_destructive(self) -> bool {
        self.destructive_allowed
    }

    /// Has web content entered the context this turn?
    pub closed spec fn web_seen(self) -> bool {
        self.web_context_active
    }

    pub fn new(destructive_allowed: bool) -> (r: Gatekeeper)
        ensures
            r.allows_destructive() == destructive_allowed,
            !r.web_seen(),
    {
        Gatekeeper { destructive_allowed, web_context_active: false }
    }

    /// The check before running a tool of this safety (`None`: unknown). A
    /// destructive tool never runs once web content is in context.
    pub fn check(&self, safety: Option<ToolSafety>) -> (r: Gate)
        ensures
            safety is None ==> r == Gate::Unknown,
            safety == Some(ToolSafety::Destructive) && !self.allows_destructive() ==> r == Gate::DestructiveDisabled,
            safety == Some(ToolSafety::Destructive) && self.allows_destructive() && self.web_seen() ==> r == Gate::WebLocked,
            safety is Some && (safety != Some(ToolSafety::Destructive) || (self.allows_destructive() && !self.web_seen()))
                ==> r == Gate::Run,
            self.web_seen() && safety == Some(ToolSafety::Destructive) ==> r != Gate::Run,
    {
        gate(safety, self.destructive_allowed, self.web_context_active)
    }

    /// A tool finished: a web tool that returned content puts web content in
    /// context, and it stays there for the rest of the turn.
    pub fn record(&mut self, name: &str, ok: bool)
        ensures
            final(self).web_seen() == (old(self).web_seen() || (ok && (name@ == "web_search"@ || name@ == "read_page"@))),
            final(self).allows_destructive() == old(self).allows_destructive(),
            gate_step(*old(self), GateEvent::Ran(name@, ok), *final(self)),
    {
        if brings_web_content(name, ok) {
            self.web_context_active = true;
        }
    }

    /// Allows or forbids destructive tools (kept in step with the user's
    /// consent).
    pub fn set_destructive_allowed(&mut self, allowed: bool)
        ensures
            final(self).allows_destructive() == allowed,
            final(self).web_seen() == old(self).web_seen(),
            gate_step(*old(self), GateEvent::SetAllowed(allowed), *final(self)),
    {
        self.destructive_allowed = allowed;
    }

    /// A new turn: web content from the last one no longer counts.
    pub fn reset_web_context(&mut self)
        ensures
            !final(self).web_seen(),
            final(self).allows_destructive() == old(self).allows_destructive(),
            gate_step(*old(self), GateEvent::NewTurn, *final(self)),
    {
        self.web_context_active = false;
    }
}

/// What can happen to the registry's safety state during a session.
pub enum GateEvent {
    /// A tool of this name ran, successfully or not.
    Ran(Seq<char>, bool),
    /// Destructive tools were allowed or forbidden.
    SetAllowed(bool),
    /// A new turn began.
    NewTurn,
}

/// Did this event put web content into context?
pub open spec fn brings_web(e: GateEvent) -> bool {
    e matches GateEvent::Ran(n, ok) && ok && (n == "web_search"@ || n == "read_page"@)
}

/// `g2` is `g` after `e`, as `record`, `set_destructive_allowed` and
/// `reset_web_context` leave it.
pub open spec fn gate_step(g: Gatekeeper, e: GateEvent, g2: Gatekeeper) -> bool {
    match e {
        GateEvent::Ran(_, _) => g2.web_seen() == (g.web_seen() || brings_web(e))
            && g2.allows_destructive() == g.allows_destructive(),
        GateEvent::SetAllowed(a) => g2.allows_destructive() == a && g2.web_seen() == g.web_seen(),
        GateEvent::NewTurn => !g2.web_seen() && g2.allows_destructive() == g.allows_destructive(),
    }
}

/// Web content is in context after `evs` (starting from `seen`): some event
/// brought it in and no new turn began since, or it was there at the start
/// and no new turn began at all.
pub open spec fn web_locked_after(seen: bool, evs: Seq<GateEvent>) -> bool {
    ||| exists|i: int| 0 <= i < evs.len() && #[trigger] brings_web(evs[i])
            && forall|j: int| i < j < evs.len() ==> !(#[trigger] evs[j] is NewTurn)
    ||| seen && forall|j: int| 0 <= j < evs.len() ==> !(#[trigger] evs[j] is NewTurn)
}

/// Once a successful `web_search` or `read_page` has put web content into
/// context, it stays there through any later tool calls and changes of
/// consent until a new turn begins, and only then; so `check` refuses every
/// destructive tool from that call until the next turn.
#[verifier::spinoff_prover]
#[verifier::rlimit(40)]
pub proof fn lemma_web_lock_sticks(gs: Seq<Gatekeeper>, evs: Seq<GateEvent>)
    requires
        gs.len() == evs.len() + 1,
        forall|i: int| 0 <= i < evs.len() ==> gate_step(#[trigger] gs[i], evs[i], gs[i + 1]),
    ensures
        gs.last().web_seen() == web_locked_after(gs[0].web_seen(), evs),
    decreases evs.len(),
{
    let n = evs.len() as int;
    if n == 0 {
        assert(gs.last() == gs[0]);
    } else {
        let ep = evs.drop_last();
        let gp = gs.drop_last();
        assert forall|i: int| 0 <= i < ep.len() implies gate_step(#[trigger] gp[i], ep[i], gp[i + 1]) by {
            assert(gp[i] == gs[i]);
            assert(gp[i + 1] == gs[i + 1]);
            assert(ep[i] == evs[i]);
        }
        lemma_web_lock_sticks(gp, ep);
        assert(gp.last() == gs[n - 1]);
        assert(gp[0] == gs[0]);
        assert(gate_step(gs[n - 1], evs[n - 1], gs[n]));
        let last = evs[n - 1];
        let seen0 = gs[0].web_seen();
        if last is NewTurn {
            assert(!brings_web(last));
            assert(!web_locked_after(seen0, evs)) by {
                if exists|i: int| 0 <= i < evs.len() && #[trigger] brings_web(evs[i])
                    && forall|j: int| i < j < evs.len() ==> !(#[trigger] evs[j] is NewTurn) {
                    let i = choose|i: int| 0 <= i < evs.len() && #[trigger] brings_web(evs[i])
                        && forall|j: int| i < j < evs.len() ==> !(#[trigger] evs[j] is NewTurn);
                    if i < n - 1 {
                        assert(!(evs[n - 1] is NewTurn));
                    }
                }
            }
        } else if brings_web(last) {
            assert(web_locked_after(seen0, evs)) by {
                assert(brings_web(evs[n - 1]));
            }
        } else {
            assert(gs[n].web_seen() == gs[n - 1].web_seen());
            assert(web_locked_after(seen0, evs) == web_locked_after(seen0, ep)) by {
                if exists|i: int| 0 <= i < evs.len() && #[trigger] brings_web(evs[i])
                    && forall|j: int| i < j < evs.len() ==> !(#[trigger] evs[j] is NewTurn) {
                    let i = choose|i: int| 0 <= i < evs.len() && #[trigger] brings_web(evs[i])
                        && forall|j: int| i < j < evs.len() ==> !(#[trigger] evs[j] is NewTurn);
                    assert(i < n - 1);
                    assert(brings_web(ep[i]));
                    assert forall|j: int| i < j < ep.len() implies !(#[trigger] ep[j] is NewTurn) by {
                        assert(ep[j] == evs[j]);
                    }
                }
                if exists|i: int| 0 <= i < ep.len() && #[trigger] brings_web(ep[i])
                    && forall|j: int| i < j < ep.len() ==> !(#[trigger] ep[j] is NewTurn) {
                    let i = choose|i: int| 0 <= i < ep.len() && #[trigger] brings_web(ep[i])
                        && forall|j: int| i < j < ep.len() ==> !(#[trigger] ep[j] is NewTurn);
                    assert(brings_web(evs[i]));
                    assert forall|j: int| i < j < evs.len() implies !(#[trigger] evs[j] is NewTurn) by {
                        if j < n - 1 {
                            assert(ep[j] == evs[j]);
                        }
                    }
                }
                if seen0 && forall|j: int| 0 <= j < evs.len() ==> !(#[trigger] evs[j] is NewTurn) {
                    assert forall|j: int| 0 <= j < ep.len() implies !(#[trigger] ep[j] is NewTurn) by {
                        assert(ep[j] == evs[j]);
                    }
                }
                if seen0 && forall|j: int| 0 <= j < ep.len() ==> !(#[trigger] ep[j] is NewTurn) {
                    assert forall|j: int| 0 <= j < evs.len() implies !(#[trigger] evs[j] is NewTurn) by {
                        if j < n - 1 {
                            assert(ep[j] == evs[j]);
                        }
                    }
                }
            }
        }
    }
}

/// The system prompt text for one tool.
pub open spec fn tool_section(t: ToolInfo) -> Seq<char> {
    "## "@ + t.name@ + seq!['\n'] + t.description@ + seq!['\n']
        + (if t.parameters@.len() > 0 { "Parameters:\n"@ + params_text(t.parameters@, t.parameters@.len() as int) } else { Seq::empty() })
        + seq!['\n']
}

/// One line per parameter (the first `n`).
pub open spec fn params_text(ps: Seq<ToolParam>, n: int) -> Seq<char>
    decreases n,
{
    if n <= 0 {
        Seq::empty()
    } else {
        let p = ps[n - 1];
        params_text(ps, n - 1) + "  - "@ + p.name@ + ": "@ + p.param_type@ + " ("@
            + (if p.required { "(required)"@ } else { "(optional)"@ }) + ") "@ + p.description@ + seq!['\n']
    }
}

pub open spec fn sections(ts: Seq<ToolInfo>, n: int) -> Seq<char>
    decreases n,
{
    if n <= 0 {
        Seq::empty()
    } else {
        sections(ts, n - 1) + tool_section(ts[n - 1])
    }
}

pub const PROMPT_HEAD: &'static str = "You have access to the following tools. To use a tool, output a JSON object with \"tool\" and \"args\":\n\n";
pub const PROMPT_TAIL: &'static str = "\nRespond with tool calls like:\n{\"tool\": \"shell\", \"args\": {\"command\": \"ls -la\"}}\nYou can use multiple tools in sequence. After tool results, continue your response.\n";

fn push_params(s: &mut String, ps: &Vec<ToolParam>)
    ensures
        final(s)@ == old(s)@ + params_text(ps@, ps@.len() as int),
{
    let mut j: usize = 0;
    while j < ps.len()
        invariant
            j <= ps@.len(),
            s@ == old(s)@ + params_text(ps@, j as int),
        decreases ps@.len() - j,
    {
        let p = &ps[j];
        push_str(s, "  - ");
        push_str(s, p.name.as_str());
        push_str(s, ": ");
        push_str(s, p.param_type.as_str());
        push_str(s, " (");
        if p.required {
            push_str(s, "(required)");
        } else {
            push_str(s, "(optional)");
        }
        push_str(s, ") ");
        push_str(s, p.description.as_str());
        push_char(s, '\n');
        j = j + 1;
        assert(s@ =~= old(s)@ + params_text(ps@, j as int));
    }
}

fn push_section(s: &mut String, t: &ToolInfo)
    ensures
        final(s)@ == old(s)@ + tool_section(*t),
{
    push_str(s, "## ");
    push_str(s, t.name.as_str());
    push_char(s, '\n');
    push_str(s, t.description.as_str());
    push_char(s, '\n');
    let ghost mid = s@;
    if t.parameters.len() > 0 {
        push_str(s, "Parameters:\n");
        push_params(s, &t.parameters);
    }
    push_char(s, '\n');
    assert(s@ =~= old(s)@ + tool_section(*t));
}

/// The system prompt describing the available tools to the model.
pub fn system_prompt(tools: &Vec<ToolInfo>) -> (r: String)
    ensures
        r@ == PROMPT_HEAD@ + sections(tools@, tools@.len() as int) + PROMPT_TAIL@,
{
    let mut s = String::new();
    push_str(&mut s, PROMPT_HEAD);
    let mut i: usize = 0;
    while i < tools.len()
        invariant
            i <= tools@.len(),
            s@ == PROMPT_HEAD@ + sections(tools@, i as int),
        decreases tools@.len() - i,
    {
        push_section(&mut s, &tools[i]);
        i = i + 1;
        assert(s@ =~= PROMPT_HEAD@ + sections(tools@, i as int));
    }
    push_str(&mut s, PROMPT_TAIL);
    s
}

} // verus!
