//! Agent mode: the model drives tools in a loop until the task is done.
//!
//! The loop itself (talking to the model, waiting for the user, running a
//! tool) is I/O; every decision it makes lives here: the system prompt, how a
//! reply is read (plan, final answer, or a tool call), where a call is routed,
//! and what is fed back to the model afterwards.

use vstd::prelude::*;
use crate::chat::{arg_text, call_in, call_of, closing_brace, find_closing, lemma_close_from_bounds, member_or_empty};
use crate::text::{
    byte_prefix_end, chars_of, contains, contains_str, find, has_prefix, is_byte_prefix_end, line_at, lines_from,
    lines_of, push_range, push_str, skip_ws, slice_vec, starts_with, str_eq, string_of, string_of_range, to_lowercase,
    trim, trim_start, trimmed, unicode_lowercase, utf8_len,
};
use crate::tools::{ToolRequest, ToolResult};
use crate::web::byte_cut;

verus! {

/// The most tool steps one agent run may take.
pub const MAX_STEPS: usize = 12;

// ── System prompt ──────────────────────────────────────────────────────────

pub const PLAN_BASE: &'static str = "You are LlamaChat's agent, able to control this Mac. The user wants a PLAN only — do NOT act. \
         Reply with a short numbered plan of the steps/tools you would use. Do not output any tool JSON.";

pub const ACT_BASE: &'static str = "You are LlamaChat's agent, controlling this Mac to accomplish the user's task. Work step by step.\n\
         - To use a tool, reply with ONLY one JSON object: {\"tool\": \"<name>\", \"args\": { ... }} — no other text, no code fences.\n\
         - `args` MUST be a flat object. `action` is a single word. Never put JSON inside a string.\n\
         - I run it and reply with the Result; then you take the next step.\n\
         - When the task is fully done, reply with a short plain-language summary and NO JSON.\n\
         - Prefer the `computer` tool for desktop actions.\n\
         CRITICAL — never make things up:\n\
         - You know ONLY what a `Result:` message explicitly tells you. Never invent, assume, or role-play what an app showed, said, or replied.\n\
         - Typing, pressing keys, and opening apps or URLs give you NO view of what happened. To see an app's reply, a page, or whether something worked, you MUST call read_screen and read the actual text it returns.\n\
         - If you have not read the screen, you do NOT know the result — say that, do not guess. Never answer from memory as if it were on the screen.\n\
         - If read_screen errors or is blank (e.g. permission missing), report that you could not see the screen — do not fabricate a result.\n\
         - Your final summary must state only what the Results actually confirmed.\n\
         Examples:\n\
         Open an app:        {\"tool\": \"computer\", \"args\": {\"action\": \"open_app\", \"target\": \"Google Chrome\"}}\n\
         Search the web:     {\"tool\": \"computer\", \"args\": {\"action\": \"search_web\", \"target\": \"weather today\"}}\n\
         See the screen:     {\"tool\": \"computer\", \"args\": {\"action\": \"read_screen\"}}\n\
         Run a command:      {\"tool\": \"shell\", \"args\": {\"command\": \"ls -la\"}}";

pub const SEE_VISION: &'static str = "read_screen returns a vision model's plain-text DESCRIPTION of the screen.";

pub const SEE_AX: &'static str = "read_screen returns on-screen elements as text `role: label @ x,y`; use those x,y to click.";

pub const DESKTOP_HEAD: &'static str = "\n\nThe `computer` tool ALSO controls the mouse and reads the screen:\n\
             - read_screen — see what's on screen. ";

pub const DESKTOP_TAIL: &'static str = "\n\
             - To see a SPECIFIC app (even while LlamaChat's own window is focused), pass its name: {\"action\": \"read_screen\", \"app\": \"Discord\"} — this brings that app forward and reads IT. Always target the app you are working with by name; LlamaChat's own window (app \"fitllm\") is NEVER the target.\n\
             - click / double_click / right_click — need x and y pixel coordinates (get them from read_screen).\n\
             - mouse_move (x,y), drag (x,y,x2,y2), scroll (direction: up|down).\n\
             To operate an app: read_screen with app=\"<that app>\" to bring it forward and see its elements, then click one by its x,y, then type. If read_screen shows app \"fitllm\"/LlamaChat, you targeted the wrong window — re-read with the app name.\n\
             To MESSAGE someone in a chat app (Discord, Messages, Slack): separate the recipient from the text — \"say hi to claw\" means message=\"hi\", recipient=\"claw\". Steps, one at a time, read_screen between each: 1) open the app, 2) read_screen it, 3) find and click that person's conversation in the list, 4) click the message input box, 5) type ONLY the message, 6) press Return. NEVER type before you have clicked the right conversation and its message box.\n\
             If read_screen returns almost nothing (only window buttons — common for Electron apps like Discord), the accessibility tree is empty: say you cannot see the app's contents and that screenshot-vision mode is needed. Do NOT guess coordinates or claim you sent a message you cannot see.";

pub const MEMORY_HEAD: &'static str = "\n\nWhat you know about the user:\n";

/// The agent's system prompt: the plan-only or acting instructions, the tool
/// list, (when acting) how the `computer` tool sees and drives the desktop,
/// and what is remembered about the user, when anything is.
pub open spec fn agent_prompt(tools: Seq<char>, memory: Seq<char>, plan_mode: bool, perception: Seq<char>) -> Seq<char> {
    let base = if plan_mode { PLAN_BASE@ } else { ACT_BASE@ };
    let desktop = if plan_mode {
        Seq::<char>::empty()
    } else {
        DESKTOP_HEAD@ + (if perception == "vision"@ { SEE_VISION@ } else { SEE_AX@ }) + DESKTOP_TAIL@
    };
    let s = base + "\n\n"@ + tools + desktop;
    if trim(memory).len() == 0 {
        s
    } else {
        s + MEMORY_HEAD@ + trim(memory)
    }
}

pub fn agent_system_prompt(tools_prompt: &str, memory: &str, plan_mode: bool, perception: &str) -> (r: String)
    ensures
        r@ == agent_prompt(tools_prompt@, memory@, plan_mode, perception@),
{
    let mut s = String::new();
    push_str(&mut s, if plan_mode { PLAN_BASE } else { ACT_BASE });
    push_str(&mut s, "\n\n");
    push_str(&mut s, tools_prompt);
    if !plan_mode {
        push_str(&mut s, DESKTOP_HEAD);
        push_str(&mut s, if str_eq(perception, "vision") { SEE_VISION } else { SEE_AX });
        push_str(&mut s, DESKTOP_TAIL);
    }
    let mem = trimmed(memory);
    if !mem.as_str().is_empty() {
        push_str(&mut s, MEMORY_HEAD);
        push_str(&mut s, mem.as_str());
    }
    assert(s@ =~= agent_prompt(tools_prompt@, memory@, plan_mode, perception@));
    s
}

// ── Desktop actions ────────────────────────────────────────────────────────

/// The `computer` actions handled by native desktop control.
pub open spec fn desktop_actions() -> Seq<Seq<char>> {
    seq![
        "read_screen"@, "read_ui"@, "screen"@, "mouse_move"@, "move"@, "move_mouse"@,
        "click"@, "left_click"@, "double_click"@, "right_click"@, "drag"@, "scroll"@,
    ]
}

pub const DESKTOP_ACTIONS: [&'static str; 12] = [
    "read_screen", "read_ui", "screen", "mouse_move", "move", "move_mouse",
    "click", "left_click", "double_click", "right_click", "drag", "scroll",
];

pub fn is_desktop_action(action: &str) -> (r: bool)
    ensures
        r == desktop_actions().contains(action@),
{
    let mut i: usize = 0;
    let ghost acts = desktop_actions();
    while i < 12
        invariant
            i <= 12,
            acts == desktop_actions(),
            forall|k: int| 0 <= k < i ==> acts[k] != action@,
        decreases 12 - i,
    {
        let a = DESKTOP_ACTIONS[i];
        assert(a@ == acts[i as int]) by {
            reveal_strlit("read_screen");
            reveal_strlit("read_ui");
            reveal_strlit("screen");
            reveal_strlit("mouse_move");
            reveal_strlit("move");
            reveal_strlit("move_mouse");
            reveal_strlit("click");
            reveal_strlit("left_click");
            reveal_strlit("double_click");
            reveal_strlit("right_click");
            reveal_strlit("drag");
            reveal_strlit("scroll");
        }
        if str_eq(a, action) {
            assert(acts[i as int] == action@);
            return true;
        }
        i = i + 1;
    }
    assert forall|x: Seq<char>| acts.contains(x) implies x != action@ by {
        let k = choose|k: int| 0 <= k < acts.len() && acts[k] == x;
        assert(acts[k] != action@);
    }
    false
}

/// Is this a screen-reading action?
pub open spec fn is_read_action(action: Seq<char>) -> bool {
    action == "read_screen"@ || action == "read_ui"@ || action == "screen"@
}

fn read_action(action: &str) -> (r: bool)
    ensures
        r == is_read_action(action@),
{
    str_eq(action, "read_screen") || str_eq(action, "read_ui") || str_eq(action, "screen")
}

// ── Reading the accessibility tree ─────────────────────────────────────────

/// A lower-cased row that names only window chrome.
pub open spec fn ax_chrome(low: Seq<char>) -> bool {
    ||| contains(low, "close button"@)
    ||| contains(low, "full screen button"@)
    ||| contains(low, "minimize button"@)
    ||| contains(low, "zoom button"@)
}

/// An element row (`AXButton: label @ x,y`) that is more than window chrome.
/// The header line also holds `" @ "` but does not start with `AX`.
pub open spec fn ax_row(line: Seq<char>) -> bool {
    let t = trim_start(line);
    starts_with(t, "AX"@) && contains(t, " @ "@) && !ax_chrome(unicode_lowercase(t))
}

/// An accessibility dump that shows nothing useful beyond window chrome: the
/// signal to fall back to a vision description of the screen.
pub open spec fn ax_empty(text: Seq<char>) -> bool {
    contains(text, "No accessibility elements exposed"@)
        || (forall|k: int| 0 <= k < lines_of(text).len() ==> !ax_row(#[trigger] lines_of(text)[k]))
}

fn row_is_useful(v: &Vec<char>, lo: usize, hi: usize) -> (r: bool)
    requires
        lo <= hi <= v@.len(),
    ensures
        r == ax_row(v@.subrange(lo as int, hi as int)),
{
    let a = skip_ws(v, lo, hi);
    let t = slice_vec(v, a, hi);
    if !has_prefix(&t, "AX") || !contains_str(&t, " @ ") {
        return false;
    }
    let low = to_lowercase(string_of(&t).as_str());
    let lv = chars_of(low.as_str());
    !(contains_str(&lv, "close button") || contains_str(&lv, "full screen button")
        || contains_str(&lv, "minimize button") || contains_str(&lv, "zoom button"))
}

pub fn ax_is_empty(text: &str) -> (r: bool)
    ensures
        r == ax_empty(text@),
{
    let v = chars_of(text);
    if contains_str(&v, "No accessibility elements exposed") {
        return true;
    }
    let n = v.len();
    let mut i: usize = 0;
    let ghost mut done: Seq<Seq<char>> = seq![];
    assert(lines_of(v@) =~= done + lines_from(v@, 0));
    while i < n
        invariant
            n == v@.len(),
            v@ == text@,
            !contains(text@, "No accessibility elements exposed"@),
            i <= n,
            lines_of(v@) == done + lines_from(v@, i as int),
            forall|k: int| 0 <= k < done.len() ==> !ax_row(#[trigger] done[k]),
        decreases n - i,
    {
        let (e, next) = line_at(&v, i);
        if row_is_useful(&v, i, e) {
            proof {
                let ls = lines_of(text@);
                assert(v@ == text@);
                assert(ls[done.len() as int] == v@.subrange(i as int, e as int));
                assert(ax_row(ls[done.len() as int]));
                assert(!contains(text@, "No accessibility elements exposed"@));
            }
            return false;
        }
        proof {
            let line = v@.subrange(i as int, e as int);
            assert(lines_of(v@) =~= done.push(line) + lines_from(v@, next as int));
            done = done.push(line);
        }
        i = next;
    }
    assert(lines_from(v@, i as int) =~= Seq::<Seq<char>>::empty());
    assert(lines_of(v@) =~= done);
    true
}

// ── Tool calls in a reply ──────────────────────────────────────────────────

/// The first balanced `{...}` object at or after `i` that is a tool call
/// (a string `tool` member); an object that is not one is skipped whole.
pub open spec fn agent_call_from(s: Seq<char>, i: int) -> Option<(Seq<char>, Seq<char>)>
    decreases s.len() - i,
{
    if i < 0 || i >= s.len() {
        None
    } else if s[i] == '{' {
        match closing_brace(s, i) {
            Some(j) => if i <= j < s.len() {
                match call_of(s.subrange(i, j + 1)) {
                    Some(c) => Some(c),
                    None => agent_call_from(s, j + 1),
                }
            } else {
                None
            },
            None => agent_call_from(s, i + 1),
        }
    } else {
        agent_call_from(s, i + 1)
    }
}

/// The tool call in a reply, as its name and its arguments as JSON text
/// (`{}` when it has none).
pub open spec fn agent_call(text: Seq<char>) -> Option<(Seq<char>, Seq<char>)> {
    agent_call_from(text, 0)
}

/// Finds the first balanced `{...}` object containing a string `"tool"` key:
/// the tool's name and its `args` as JSON text.
pub fn parse_tool_call(text: &str) -> (r: Option<(String, String)>)
    ensures
        match agent_call(text@) {
            Some((n, a)) => r matches Some(p) && p.0@ == n && p.1@ == a,
            None => r is None,
        },
{
    let v = chars_of(text);
    let n = v.len();
    let mut i: usize = 0;
    while i < n
        invariant
            n == v@.len(),
            v@ == text@,
            i <= n,
            agent_call(v@) == agent_call_from(v@, i as int),
        decreases n - i,
    {
        if v[i] == '{' {
            match find_closing(&v, i) {
                Some(j) => {
                    proof {
                        lemma_close_from_bounds(v@, i as int, 0, false, false);
                    }
                    let json = string_of_range(&v, i, j + 1);
                    assert(closing_brace(v@, i as int) == Some(j as int));
                    match call_in(json.as_str()) {
                        Some(req) => {
                            assert(agent_call_from(v@, i as int) == call_of(v@.subrange(i as int, j + 1)));
                            return Some((req.name, req.args));
                        }
                        None => {
                            i = j + 1;
                        }
                    }
                }
                None => {
                    i = i + 1;
                }
            }
        } else {
            i = i + 1;
        }
    }
    None
}

// ── The run ────────────────────────────────────────────────────────────────

/// How far the agent may act on its own.
#[derive(Debug, Clone, Copy, PartialEq, Eq, Structural)]
pub enum AgentMode {
    /// Describe a plan; execute nothing.
    Plan,
    /// Ask the user before each tool call.
    Ask,
    /// Run tool calls without asking (`auto` and `bypass`).
    Auto,
}

pub open spec fn mode_of(mode: Seq<char>) -> AgentMode {
    if mode == "plan"@ {
        AgentMode::Plan
    } else if mode == "ask"@ {
        AgentMode::Ask
    } else {
        AgentMode::Auto
    }
}

pub fn agent_mode(mode: &str) -> (r: AgentMode)
    ensures
        r == mode_of(mode@),
{
    if str_eq(mode, "plan") {
        AgentMode::Plan
    } else if str_eq(mode, "ask") {
        AgentMode::Ask
    } else {
        AgentMode::Auto
    }
}

/// What the model's reply asks for.
#[derive(Debug, Clone)]
pub enum Turn {
    /// The plan to show (plan mode); the run ends.
    Plan(String),
    /// The final answer (a reply with no tool call); the run ends.
    Answer(String),
    /// A tool call that waits for the user's yes or no (ask mode).
    Approve { tool: String, args: String },
    /// A tool call to run now.
    Run { tool: String, args: String },
}

/// What the reply `reply` asks for in `mode`.
pub open spec fn turn_is(t: Turn, mode: AgentMode, reply: Seq<char>) -> bool {
    if mode == AgentMode::Plan {
        t matches Turn::Plan(p) && p@ == trim(reply)
    } else {
        match agent_call(reply) {
            None => t matches Turn::Answer(a) && a@ == trim(reply),
            Some((n, a)) => if mode == AgentMode::Ask {
                t matches Turn::Approve { tool, args } && tool@ == n && args@ == a
            } else {
                t matches Turn::Run { tool, args } && tool@ == n && args@ == a
            },
        }
    }
}

/// Does this turn end the run?
pub open spec fn ends_run(t: Turn) -> bool {
    t is Plan || t is Answer
}

pub const DECLINED_NOTE: &'static str = "[The user declined that tool. Try another approach or finish.]";

pub const STEP_LIMIT_NOTE: &'static str = "Reached the step limit — stopping here.";

/// The state of one agent run: its mode, how many steps it has taken, and
/// whether it has ended.
pub struct AgentRun {
    pub mode: AgentMode,
    pub step: usize,
    pub done: bool,
}

impl AgentRun {
    /// A run never takes more than `MAX_STEPS` steps.
    pub open spec fn wf(self) -> bool {
        self.step <= MAX_STEPS
    }

    pub open spec fn is_active(self) -> bool {
        !self.done && self.step < MAX_STEPS
    }

    pub fn new(mode: AgentMode) -> (r: AgentRun)
        ensures
            r.wf(),
            r.mode == mode,
            r.step == 0,
            !r.done,
    {
        AgentRun { mode, step: 0, done: false }
    }

    /// May the run ask the model for another step?
    pub fn active(&self) -> (r: bool)
        ensures
            r == self.is_active(),
    {
        !self.done && self.step < MAX_STEPS
    }

    /// Ends the run (the user pressed Stop, or the model could not be reached).
    pub fn stop(&mut self)
        ensures
            final(self).done,
            final(self).mode == old(self).mode,
            final(self).step == old(self).step,
    {
        self.done = true;
    }

    /// Reads the model's reply: in plan mode it is the plan; otherwise a
    /// reply without a tool call is the final answer, and a tool call waits
    /// for approval in ask mode or runs at once.
    pub fn on_reply(&mut self, reply: &str) -> (t: Turn)
        ensures
            turn_is(t, old(self).mode, reply@),
            final(self).done == (old(self).done || ends_run(t)),
            final(self).mode == old(self).mode,
            final(self).step == old(self).step,
    {
        if self.mode == AgentMode::Plan {
            self.done = true;
            return Turn::Plan(trimmed(reply));
        }
        match parse_tool_call(reply) {
            None => {
                self.done = true;
                Turn::Answer(trimmed(reply))
            }
            Some((tool, args)) => {
                if self.mode == AgentMode::Ask {
                    Turn::Approve { tool, args }
                } else {
                    Turn::Run { tool, args }
                }
            }
        }
    }

    /// The user's answer to an approval request: a yes runs the call; a no
    /// (or a timeout) skips it, which uses up the step (the model is then
    /// told `DECLINED_NOTE`).
    pub fn on_decision(&mut self, approved: bool) -> (run: bool)
        requires
            old(self).step < MAX_STEPS,
        ensures
            run == approved,
            final(self).mode == old(self).mode,
            final(self).done == old(self).done,
            final(self).step == if approved { old(self).step } else { (old(self).step + 1) as usize },
            final(self).wf(),
    {
        if !approved {
            self.step = self.step + 1;
        }
        approved
    }

    /// A tool call has run and its result was fed back: the step is used up.
    /// Returns whether that was the last step allowed (then the run reports
    /// `STEP_LIMIT_NOTE`).
    pub fn on_result(&mut self) -> (last: bool)
        requires
            old(self).step < MAX_STEPS,
        ensures
            last == (old(self).step + 1 == MAX_STEPS),
            final(self).step == old(self).step + 1,
            final(self).mode == old(self).mode,
            final(self).done == old(self).done,
            final(self).wf(),
    {
        self.step = self.step + 1;
        self.step == MAX_STEPS
    }
}

/// A run in plan mode ends with its first reply and never reaches a tool.
pub proof fn lemma_plan_never_acts(t: Turn, reply: Seq<char>)
    requires
        turn_is(t, AgentMode::Plan, reply),
    ensures
        ends_run(t),
        !(t is Approve),
        !(t is Run),
{
}

/// Only ask mode waits for the user; a tool call in auto mode runs at once.
pub proof fn lemma_only_ask_waits(t: Turn, mode: AgentMode, reply: Seq<char>)
    requires
        turn_is(t, mode, reply),
    ensures
        t is Approve ==> mode == AgentMode::Ask,
        t is Run ==> mode == AgentMode::Auto,
        agent_call(reply) is None && mode != AgentMode::Plan ==> t is Answer,
{
}

// ── Where a call goes, and what is fed back ────────────────────────────────

/// Where a tool call is carried out.
#[derive(Debug, Clone, Copy, PartialEq, Eq, Structural)]
pub enum Route {
    /// Screenshot the screen and have the vision model describe it.
    Describe,
    /// Read the accessibility tree (falling back to `Describe` when it is
    /// empty).
    ReadTree,
    /// Native mouse and keyboard control.
    Control,
    /// The tool registry.
    Registry,
}

/// Calls are routed by their `action`, whatever the tool is called: screen
/// reads and mouse actions always go to native desktop control.
pub open spec fn route_of(action: Seq<char>, vision: bool) -> Route {
    if desktop_actions().contains(action) {
        if is_read_action(action) {
            if vision { Route::Describe } else { Route::ReadTree }
        } else {
            Route::Control
        }
    } else {
        Route::Registry
    }
}

/// The `action` argument of a call (empty when it has none).
pub fn call_action(args: &str) -> (r: String)
    ensures
        r@ == arg_text(args@, "action"@),
{
    member_or_empty(args, "action")
}

pub fn route(action: &str, vision: bool) -> (r: Route)
    ensures
        r == route_of(action@, vision),
{
    if is_desktop_action(action) {
        if read_action(action) {
            if vision { Route::Describe } else { Route::ReadTree }
        } else {
            Route::Control
        }
    } else {
        Route::Registry
    }
}

pub const VISION_FALLBACK: &'static str = "(The accessibility tree was empty, so this is a screenshot description from the vision model instead:)\n";

pub const BLIND_HEAD: &'static str = "\n(Only window controls are visible — this app hides its UI from accessibility, and screenshot-vision is unavailable: ";

pub const BLIND_TAIL: &'static str = " Grant Screen Recording, or tell the user you cannot see this app. Do NOT guess coordinates or claim success.)";

/// The text of an empty accessibility read once the vision model has
/// described the screen instead.
pub fn vision_fallback(desc: &str) -> (r: String)
    ensures
        r@ == VISION_FALLBACK@ + desc@,
{
    let mut s = String::from_str(VISION_FALLBACK);
    push_str(&mut s, desc);
    s
}

/// The text of an empty accessibility read when vision is unavailable too:
/// the tree, and a note that the app cannot be seen.
pub fn blind_fallback(tree: &str, err: &str) -> (r: String)
    ensures
        r@ == tree@ + BLIND_HEAD@ + err@ + BLIND_TAIL@,
{
    let mut s = String::new();
    push_str(&mut s, tree);
    push_str(&mut s, BLIND_HEAD);
    push_str(&mut s, err);
    push_str(&mut s, BLIND_TAIL);
    s
}

/// The outcome of a desktop action: its text, or `ERROR: ` and the reason.
pub fn desktop_outcome(r: Result<String, String>) -> (o: (bool, String))
    ensures
        match r {
            Ok(t) => o.0 && o.1@ == t@,
            Err(e) => !o.0 && o.1@ == "ERROR: "@ + e@,
        },
{
    match r {
        Ok(t) => (true, t),
        Err(e) => {
            let mut s = String::from_str("ERROR: ");
            push_str(&mut s, e.as_str());
            (false, s)
        }
    }
}

/// The outcome of a registry tool: its output (`(done)` when it has none),
/// or `ERROR: ` and its error (`failed` when it has none).
pub fn registry_outcome(result: &ToolResult) -> (o: (bool, String))
    ensures
        o.0 == result.ok,
        result.ok ==> o.1@ == match result.output { Some(t) => t@, None => "(done)"@ },
        !result.ok ==> o.1@ == "ERROR: "@ + match result.error { Some(e) => e@, None => "failed"@ },
{
    if result.ok {
        match &result.output {
            Some(t) => (true, t.clone()),
            None => (true, String::from_str("(done)")),
        }
    } else {
        let mut s = String::from_str("ERROR: ");
        match &result.error {
            Some(e) => push_str(&mut s, e.as_str()),
            None => push_str(&mut s, "failed"),
        }
        (false, s)
    }
}

/// How much of a tool's output (in bytes) is fed back to the model.
pub const FEED_LIMIT: usize = 4000;

pub const BLIND_ACTION_NOTE: &'static str = "\n(You have NOT seen the effect of this action. If you need to know what is on screen or how an app responded, call read_screen next — do not assume or invent it.)";

/// Cutting `s` at byte `max` falls on a character boundary (or `s` is no
/// longer than `max` bytes).
pub open spec fn cuts_cleanly(s: Seq<char>, max: nat) -> bool {
    utf8_len(s) <= max || utf8_len(s.take(byte_cut(s, max))) == max
}

/// The message that feeds a tool's outcome back to the model: the output cut
/// to `FEED_LIMIT` bytes, and, after a desktop action that did not read the
/// screen, a reminder that its effect has not been seen.
pub open spec fn feed_of(tool: Seq<char>, action: Seq<char>, ok: bool, text: Seq<char>) -> Seq<char> {
    let body = if utf8_len(text) > FEED_LIMIT as nat {
        text.take(byte_cut(text, FEED_LIMIT as nat)) + "\n…(truncated)"@
    } else {
        text
    };
    let note = if ok && !is_read_action(action) && desktop_actions().contains(action) {
        BLIND_ACTION_NOTE@
    } else {
        Seq::<char>::empty()
    };
    "Result of `"@ + tool + "`:\n"@ + body + note
}

pub fn fed_message(tool: &str, action: &str, ok: bool, text: &str) -> (r: String)
    requires
        cuts_cleanly(text@, FEED_LIMIT as nat),
    ensures
        r@ == feed_of(tool@, action@, ok, text@),
{
    let mut s = String::from_str("Result of `");
    push_str(&mut s, tool);
    push_str(&mut s, "`:\n");
    let v = chars_of(text);
    let k = byte_prefix_end(&v, FEED_LIMIT);
    proof {
        assert(v@.take(v@.len() as int) =~= v@);
        if k < v@.len() {
            crate::text::lemma_utf8_len_mono(v@, k + 1, v@.len() as int);
        }
        let c = choose|c: int| is_byte_prefix_end(v@, FEED_LIMIT as nat, c);
        crate::tools::lemma_byte_prefix_unique(v@, FEED_LIMIT as nat, c, k as int);
    }
    push_range(&mut s, &v, 0, k);
    if k < v.len() {
        push_str(&mut s, "\n…(truncated)");
    }
    if ok && !read_action(action) && is_desktop_action(action) {
        push_str(&mut s, BLIND_ACTION_NOTE);
    }
    proof {
        assert(v@.subrange(0, k as int) =~= v@.take(k as int));
    }
    assert(s@ =~= feed_of(tool@, action@, ok, text@));
    s
}

// ── The core agent's reply format ──────────────────────────────────────────

/// Where an object whose `{` lies before index `j` closes, counting braces
/// only (`depth` braces are open at `j`).
pub open spec fn plain_close(s: Seq<char>, j: int, depth: nat) -> Option<int>
    decreases s.len() - j,
{
    if j < 0 || j >= s.len() || depth == 0 {
        None
    } else if s[j] == '{' {
        plain_close(s, j + 1, depth + 1)
    } else if s[j] == '}' {
        if depth == 1 {
            Some(j)
        } else {
            plain_close(s, j + 1, (depth - 1) as nat)
        }
    } else {
        plain_close(s, j + 1, depth)
    }
}

pub proof fn lemma_plain_close_bounds(s: Seq<char>, j: int, depth: nat)
    ensures
        plain_close(s, j, depth) matches Some(k) ==> j <= k < s.len(),
    decreases s.len() - j,
{
    if 0 <= j < s.len() && depth > 0 {
        if s[j] == '{' {
            lemma_plain_close_bounds(s, j + 1, depth + 1);
        } else if s[j] == '}' {
            if depth != 1 {
                lemma_plain_close_bounds(s, j + 1, (depth - 1) as nat);
            }
        } else {
            lemma_plain_close_bounds(s, j + 1, depth);
        }
    }
}

/// The call written where `p` first occurs in `text`: the object starts at
/// the `{"tool"` that ends `p` and runs to its balancing `}`.
pub open spec fn prefix_call(text: Seq<char>, p: Seq<char>) -> Option<(Seq<char>, Seq<char>)> {
    match find(text, p) {
        None => None,
        Some(pos) => {
            let start = pos + p.len() - 7;
            match plain_close(text, start + 1, 1) {
                Some(e) => call_of(text.subrange(start, e + 1)),
                None => None,
            }
        },
    }
}

/// The tool call in a reply: `{"tool"...}` bare, or in a ```` ```json ```` or
/// ```` ``` ```` fence, tried in that order.
pub open spec fn reply_call(text: Seq<char>) -> Option<(Seq<char>, Seq<char>)> {
    match prefix_call(text, "{\"tool\""@) {
        Some(c) => Some(c),
        None => match prefix_call(text, "```json\n{\"tool\""@) {
            Some(c) => Some(c),
            None => prefix_call(text, "```\n{\"tool\""@),
        },
    }
}

fn plain_closing(v: &Vec<char>, from: usize) -> (r: Option<usize>)
    requires
        1 <= from <= v@.len(),
    ensures
        r matches Some(k) ==> plain_close(v@, from as int, 1) == Some(k as int),
        r is None ==> plain_close(v@, from as int, 1) is None,
{
    let n = v.len();
    let mut j = from;
    let mut depth: usize = 1;
    while j < n
        invariant
            n == v@.len(),
            1 <= from <= j <= n,
            1 <= depth <= j - from + 1,
            plain_close(v@, from as int, 1) == plain_close(v@, j as int, depth as nat),
        decreases n - j,
    {
        if v[j] == '{' {
            depth = depth + 1;
        } else if v[j] == '}' {
            if depth == 1 {
                return Some(j);
            }
            depth = depth - 1;
        }
        j = j + 1;
    }
    None
}

fn try_prefix(v: &Vec<char>, p: &str) -> (r: Option<ToolRequest>)
    requires
        p@.len() >= 7,
    ensures
        match prefix_call(v@, p@) {
            Some((n, a)) => r matches Some(req) && req.name@ == n && req.args@ == a,
            None => r is None,
        },
{
    let pos = match crate::text::find_str(v, p, 0) {
        Some(k) => k,
        None => return None,
    };
    proof {
        crate::text::lemma_find_from_bounds(v@, p@, 0);
    }
    let pv = chars_of(p);
    let plen = pv.len();
    let n = v.len();
    assert(pos + plen <= n);
    let start = pos + (plen - 7);
    let e = match plain_closing(v, start + 1) {
        Some(e) => e,
        None => return None,
    };
    proof {
        lemma_plain_close_bounds(v@, start + 1, 1);
    }
    let json = string_of_range(v, start, e + 1);
    call_in(json.as_str())
}

/// Finds a tool call in the core agent's reply (see `reply_call`).
pub fn find_reply_call(text: &str) -> (r: Option<ToolRequest>)
    ensures
        match reply_call(text@) {
            Some((n, a)) => r matches Some(req) && req.name@ == n && req.args@ == a,
            None => r is None,
        },
{
    let v = chars_of(text);
    proof {
        reveal_strlit("{\"tool\"");
        reveal_strlit("```json\n{\"tool\"");
        reveal_strlit("```\n{\"tool\"");
    }
    match try_prefix(&v, "{\"tool\"") {
        Some(r) => return Some(r),
        None => {}
    }
    match try_prefix(&v, "```json\n{\"tool\"") {
        Some(r) => return Some(r),
        None => {}
    }
    try_prefix(&v, "```\n{\"tool\"")
}

pub const MAX_ROUNDS_NOTE: &'static str = "Max tool rounds reached.";

/// What the core agent tells the model after running a tool: its output, or
/// else its error, or else `no output`.
pub fn result_note(name: &str, result: &ToolResult) -> (r: String)
    ensures
        r@ == "Tool result for "@ + name@ + ": "@ + match result.output {
            Some(o) => o@,
            None => match result.error { Some(e) => e@, None => "no output"@ },
        },
{
    let mut s = String::from_str("Tool result for ");
    push_str(&mut s, name);
    push_str(&mut s, ": ");
    match &result.output {
        Some(o) => push_str(&mut s, o.as_str()),
        None => match &result.error {
            Some(e) => push_str(&mut s, e.as_str()),
            None => push_str(&mut s, "no output"),
        },
    }
    s
}

} // verus!
