//! The `computer` tool: the hands behind Agent mode.
//!
//! It launches and quits apps, opens URLs, searches the web, types text,
//! presses keys and clicks at coordinates. Doing those things is the
//! platform's business (AppleScript and `open` on macOS, PowerShell and native
//! input on Windows); this module decides what a call asks for, which text is
//! handed to the platform, and what the model is told afterwards.

use vstd::prelude::*;
use crate::chat::{arg_text, member_or_empty};
use crate::json::{i64_member, json_i64_member, json_str_member, str_member};
use crate::text::{
    chars_of, contains, decimal, find, find_str, has_prefix, has_suffix, int_decimal, lower, lower_vec, push_char,
    push_int, push_range, push_str, starts_with, str_eq, string_of, string_of_range, trim, trimmed, unicode_lowercase,
};
use crate::tools::{failure, is_failure, is_success, param, param_is, success, ToolInfo, ToolResult, ToolSafety};
use crate::web::{encode_query, urlencoding};

verus! {

pub const COMPUTER_DESCRIPTION: &'static str = "Control the computer. actions: open_app (launch an app by name, e.g. \"Google Chrome\"), quit_app, open_url (open a web address), search_web (open a Google search for a query), type (type text into the focused field), key (press a key like \"Return\" or \"Tab\"), click (click at x,y pixels). Put the app name / url / query / text in `target`.";

/// The `computer` tool.
pub struct ComputerTool;

/// A call as the tool understands it: the action word and its target.
#[derive(Debug, Clone)]
pub struct ComputerCall {
    pub action: String,
    pub target: String,
}

/// Characters an action word is made of.
pub open spec fn is_word_char(c: char) -> bool {
    ('a' <= c <= 'z') || ('A' <= c <= 'Z') || ('0' <= c <= '9') || c == '_'
}

/// How many characters at the start of `s` are word characters.
pub open spec fn word_run(s: Seq<char>) -> nat
    decreases s.len(),
{
    if s.len() == 0 || !is_word_char(s[0]) {
        0
    } else {
        1 + word_run(s.drop_first())
    }
}

/// The action word: the leading letters, digits and underscores of the
/// `action` argument (so `"open_url {..}"` still reads as `open_url`),
/// lowercased.
pub open spec fn action_word(args: Seq<char>) -> Seq<char> {
    let raw = arg_text(args, "action"@);
    lower(raw.take(word_run(raw) as int))
}

/// The members a target may be given in, in the order they are tried.
pub open spec fn target_keys() -> Seq<Seq<char>> {
    seq!["target"@, "text"@, "app"@, "url"@, "query"@, "q"@, "name"@]
}

/// The first of `target_keys` from `i` on that holds a string.
pub open spec fn first_target(args: Seq<char>, i: int) -> Seq<char>
    decreases target_keys().len() - i,
{
    if i < 0 || i >= target_keys().len() {
        Seq::empty()
    } else {
        match json_str_member(args, target_keys()[i]) {
            Some(t) => t,
            None => first_target(args, i + 1),
        }
    }
}

/// What `serde_json` writes back for the arguments (compact JSON text;
/// empty when the text does not parse).
pub uninterp spec fn json_compact(text: Seq<char>) -> Seq<char>;

/// `serde_json::from_str::<Value>`, then `serde_json::to_string`.
#[verifier::external_body]
fn compact(text: &str) -> (r: String)
    ensures
        r@ == json_compact(text@),
{
    match serde_json::from_str::<serde_json::Value>(text) {
        Ok(v) => serde_json::to_string(&v).unwrap_or_default(),
        Err(_) => String::new(),
    }
}

pub open spec fn is_url_stop(c: char) -> bool {
    c == '"' || c == '\\' || c == ' ' || c == '}'
}

/// Where a salvaged URL stops: before the first quote, backslash, space or
/// closing brace.
pub open spec fn url_end(s: Seq<char>, k: int) -> int
    decreases s.len() - k,
{
    if k < 0 || k >= s.len() {
        s.len() as int
    } else if is_url_stop(s[k]) {
        k
    } else {
        url_end(s, k + 1)
    }
}

/// A URL found anywhere in the written-out arguments (from the first
/// `http`), or nothing.
pub open spec fn salvaged_url(raw: Seq<char>) -> Seq<char> {
    match find(raw, "http"@) {
        Some(i) => raw.subrange(i, url_end(raw, i)),
        None => Seq::empty(),
    }
}

/// The target of a call: the first string member among `target_keys`, or,
/// when there is none, a URL salvaged from the arguments.
pub open spec fn call_target(args: Seq<char>) -> Seq<char> {
    let t = first_target(args, 0);
    if t.len() == 0 { salvaged_url(json_compact(args)) } else { t }
}

impl ComputerTool {
    pub fn new() -> (r: ComputerTool) {
        ComputerTool
    }

    pub fn info(&self) -> (r: ToolInfo)
        ensures
            r.name@ == "computer"@,
            r.description@ == COMPUTER_DESCRIPTION@,
            r.safety == ToolSafety::Destructive,
            r.parameters@.len() == 4,
            param_is(r.parameters@[0], "action"@, "string"@, true, "open_app | quit_app | open_url | search_web | type | key | click"@),
            param_is(r.parameters@[1], "target"@, "string"@, false, "App name, URL, search query, text to type, or key name."@),
            param_is(r.parameters@[2], "x"@, "number"@, false, "X pixel for click."@),
            param_is(r.parameters@[3], "y"@, "number"@, false, "Y pixel for click."@),
    {
        ToolInfo {
            name: String::from_str("computer"),
            description: String::from_str(COMPUTER_DESCRIPTION),
            safety: ToolSafety::Destructive,
            parameters: vec![
                param("action", "string", true, "open_app | quit_app | open_url | search_web | type | key | click"),
                param("target", "string", false, "App name, URL, search query, text to type, or key name."),
                param("x", "number", false, "X pixel for click."),
                param("y", "number", false, "Y pixel for click."),
            ],
        }
    }

    pub fn safety(&self) -> (r: ToolSafety)
        ensures
            r == ToolSafety::Destructive,
    {
        ToolSafety::Destructive
    }

    /// Normalises a call forgivingly, since small models are sloppy: the
    /// action word is cut out of whatever the `action` argument holds, and
    /// the target is looked for under several names and, failing that,
    /// salvaged as a URL from anywhere in the arguments.
    pub fn prepare(&self, args: &str) -> (r: ComputerCall)
        ensures
            r.action@ == action_word(args@),
            r.target@ == call_target(args@),
    {
        ComputerCall { action: action_word_of(args), target: target_of(args) }
    }
}

fn word_char(c: char) -> (r: bool)
    ensures
        r == is_word_char(c),
{
    ('a' <= c && c <= 'z') || ('A' <= c && c <= 'Z') || ('0' <= c && c <= '9') || c == '_'
}

fn action_word_of(args: &str) -> (r: String)
    ensures
        r@ == action_word(args@),
{
    let raw = member_or_empty(args, "action");
    let v = chars_of(raw.as_str());
    let mut k: usize = 0;
    assert(v@.skip(0) =~= v@);
    while k < v.len() && word_char(v[k])
        invariant
            k <= v@.len(),
            word_run(v@) == k + word_run(v@.skip(k as int)),
        decreases v@.len() - k,
    {
        assert(v@.skip(k as int).drop_first() =~= v@.skip(k + 1));
        k = k + 1;
    }
    assert(word_run(v@.skip(k as int)) == 0) by {
        if k < v@.len() {
            assert(v@.skip(k as int)[0] == v@[k as int]);
        }
    }
    let head = crate::text::slice_vec(&v, 0, k);
    assert(head@ =~= v@.take(k as int));
    string_of(&lower_vec(&head))
}

pub const TARGET_KEYS: [&'static str; 7] = ["target", "text", "app", "url", "query", "q", "name"];

fn target_of(args: &str) -> (r: String)
    ensures
        r@ == call_target(args@),
{
    let mut i: usize = 0;
    let ghost ks = target_keys();
    while i < 7
        invariant
            i <= 7,
            ks == target_keys(),
            first_target(args@, 0) == first_target(args@, i as int),
        decreases 7 - i,
    {
        let key = TARGET_KEYS[i];
        assert(key@ == ks[i as int]) by {
            reveal_strlit("target");
            reveal_strlit("text");
            reveal_strlit("app");
            reveal_strlit("url");
            reveal_strlit("query");
            reveal_strlit("q");
            reveal_strlit("name");
        }
        match str_member(args, key) {
            Some(t) => {
                if !t.as_str().is_empty() {
                    return t;
                }
                assert(first_target(args@, i as int) == t@);
                return salvage(args);
            }
            None => {}
        }
        i = i + 1;
    }
    assert(first_target(args@, 7) =~= Seq::<char>::empty());
    salvage(args)
}

fn salvage(args: &str) -> (r: String)
    ensures
        r@ == salvaged_url(json_compact(args@)),
{
    let raw = compact(args);
    let v = chars_of(raw.as_str());
    proof {
        crate::text::lemma_find_from_bounds(v@, "http"@, 0);
    }
    match find_str(&v, "http", 0) {
        Some(i) => {
            let mut k = i;
            while k < v.len() && !(v[k] == '"' || v[k] == '\\' || v[k] == ' ' || v[k] == '}')
                invariant
                    i <= k <= v@.len(),
                    url_end(v@, i as int) == url_end(v@, k as int),
                decreases v@.len() - k,
            {
                k = k + 1;
            }
            string_of_range(&v, i, k)
        }
        None => String::new(),
    }
}

// ── What a call asks for ───────────────────────────────────────────────────

/// What the platform is asked to do for a call, or the answer when nothing
/// needs doing.
#[derive(Debug, Clone)]
pub enum ComputerStep {
    /// Nothing to do: answer with this result.
    Answer(ToolResult),
    OpenApp(String),
    Quit(String),
    OpenUrl(String),
    /// Open this search URL.
    Search(String),
    Type(String),
    Key(String),
    Click(i64, i64),
}

pub open spec fn is_one_of(a: Seq<char>, names: Seq<Seq<char>>) -> bool {
    names.contains(a)
}

/// A URL for a target: as given when it starts with `http`, else over
/// `https://`.
pub open spec fn url_for(target: Seq<char>) -> Seq<char> {
    if starts_with(target, "http"@) { target } else { "https://"@ + target }
}

pub open spec fn search_url(query: Seq<char>) -> Seq<char> {
    "https://www.google.com/search?q="@ + encode_query(query)
}

pub const UNKNOWN_TAIL: &'static str = "\". Use: open_app, quit_app, open_url, search_web, type, key, click.";

/// What a call asks for. `windows` selects the Windows rules, which also
/// refuse an empty target for URLs, typing and keys, and an app name that is
/// only whitespace.
pub open spec fn step_is(r: ComputerStep, action: Seq<char>, target: Seq<char>, x: Option<i64>, y: Option<i64>, windows: bool) -> bool {
    if is_one_of(action, seq!["open_app"@, "open"@, "launch"@, "start"@]) {
        if (if windows { trim(target).len() == 0 } else { target.len() == 0 }) {
            r matches ComputerStep::Answer(res) && is_failure(res, "Provide the app name in `target`."@)
        } else {
            r matches ComputerStep::OpenApp(t) && t@ == target
        }
    } else if is_one_of(action, seq!["quit_app"@, "quit"@, "close_app"@]) {
        if windows && trim(target).len() == 0 {
            r matches ComputerStep::Answer(res) && is_failure(res, "Provide the app name in `target`."@)
        } else {
            r matches ComputerStep::Quit(t) && t@ == target
        }
    } else if is_one_of(action, seq!["open_url"@, "url"@, "goto"@, "browse"@]) {
        if windows && target.len() == 0 {
            r matches ComputerStep::Answer(res) && is_failure(res, "Provide a URL in `target`."@)
        } else {
            r matches ComputerStep::OpenUrl(u) && u@ == url_for(target)
        }
    } else if is_one_of(action, seq!["search_web"@, "search"@, "google"@]) {
        if target.len() == 0 {
            r matches ComputerStep::Answer(res) && is_failure(res, "Provide a search query in `target`."@)
        } else {
            r matches ComputerStep::Search(u) && u@ == search_url(target)
        }
    } else if is_one_of(action, seq!["type"@, "write"@]) {
        if windows && target.len() == 0 {
            r matches ComputerStep::Answer(res) && is_failure(res, "Provide the text to type in `target`."@)
        } else {
            r matches ComputerStep::Type(t) && t@ == target
        }
    } else if is_one_of(action, seq!["key"@, "keypress"@, "press"@]) {
        if windows && target.len() == 0 {
            r matches ComputerStep::Answer(res) && is_failure(res, "Provide a key name in `target` (e.g. Return, Tab)."@)
        } else {
            r matches ComputerStep::Key(t) && t@ == target
        }
    } else if action == "click"@ {
        match (x, y) {
            (Some(a), Some(b)) => if a < 0 || b < 0 {
                r matches ComputerStep::Answer(res) && is_failure(res, "Provide x and y pixel coordinates for click."@)
            } else {
                r matches ComputerStep::Click(p, q) && p == a && q == b
            },
            _ => r matches ComputerStep::Answer(res) && is_failure(res, "Provide x and y pixel coordinates for click."@),
        }
    } else {
        r matches ComputerStep::Answer(res) && is_failure(res, "Unknown action \""@ + action + UNKNOWN_TAIL@)
    }
}

fn refuse(msg: &str) -> (r: ComputerStep)
    ensures
        r matches ComputerStep::Answer(res) && is_failure(res, msg@),
{
    ComputerStep::Answer(failure(String::from_str(msg)))
}

fn is_blank(s: &str) -> (r: bool)
    ensures
        r == (trim(s@).len() == 0),
{
    trimmed(s).as_str().is_empty()
}

impl ComputerTool {
    /// Decides what a prepared call asks for; `x` and `y` are the call's
    /// integer `x` and `y` arguments.
    pub fn step(&self, call: &ComputerCall, x: Option<i64>, y: Option<i64>, windows: bool) -> (r: ComputerStep)
        ensures
            step_is(r, call.action@, call.target@, x, y, windows),
    {
        let a = call.action.as_str();
        let t = call.target.as_str();
        proof {
            reveal_strlit("open_app");
            reveal_strlit("open");
            reveal_strlit("launch");
            reveal_strlit("start");
            reveal_strlit("quit_app");
            reveal_strlit("quit");
            reveal_strlit("close_app");
            reveal_strlit("open_url");
            reveal_strlit("url");
            reveal_strlit("goto");
            reveal_strlit("browse");
            reveal_strlit("search_web");
            reveal_strlit("search");
            reveal_strlit("google");
            reveal_strlit("type");
            reveal_strlit("write");
            reveal_strlit("key");
            reveal_strlit("keypress");
            reveal_strlit("press");
        }
        if str_eq(a, "open_app") || str_eq(a, "open") || str_eq(a, "launch") || str_eq(a, "start") {
            assert(is_one_of(a@, seq!["open_app"@, "open"@, "launch"@, "start"@]));
            let empty = if windows { is_blank(t) } else { t.is_empty() };
            if empty { refuse("Provide the app name in `target`.") } else { ComputerStep::OpenApp(t.to_string()) }
        } else if str_eq(a, "quit_app") || str_eq(a, "quit") || str_eq(a, "close_app") {
            assert(!is_one_of(a@, seq!["open_app"@, "open"@, "launch"@, "start"@]));
            assert(is_one_of(a@, seq!["quit_app"@, "quit"@, "close_app"@]));
            if windows && is_blank(t) { refuse("Provide the app name in `target`.") } else { ComputerStep::Quit(t.to_string()) }
        } else if str_eq(a, "open_url") || str_eq(a, "url") || str_eq(a, "goto") || str_eq(a, "browse") {
            assert(!is_one_of(a@, seq!["open_app"@, "open"@, "launch"@, "start"@]));
            assert(!is_one_of(a@, seq!["quit_app"@, "quit"@, "close_app"@]));
            assert(is_one_of(a@, seq!["open_url"@, "url"@, "goto"@, "browse"@]));
            if windows && t.is_empty() {
                refuse("Provide a URL in `target`.")
            } else {
                ComputerStep::OpenUrl(url_of(t))
            }
        } else {
            assert(!is_one_of(a@, seq!["open_app"@, "open"@, "launch"@, "start"@]));
            assert(!is_one_of(a@, seq!["quit_app"@, "quit"@, "close_app"@]));
            assert(!is_one_of(a@, seq!["open_url"@, "url"@, "goto"@, "browse"@]));
            step_rest(a, t, x, y, windows)
        }
    }
}

fn step_rest(a: &str, t: &str, x: Option<i64>, y: Option<i64>, windows: bool) -> (r: ComputerStep)
    requires
        !is_one_of(a@, seq!["open_app"@, "open"@, "launch"@, "start"@]),
        !is_one_of(a@, seq!["quit_app"@, "quit"@, "close_app"@]),
        !is_one_of(a@, seq!["open_url"@, "url"@, "goto"@, "browse"@]),
    ensures
        step_is(r, a@, t@, x, y, windows),
{
    proof {
        reveal_strlit("search_web");
        reveal_strlit("search");
        reveal_strlit("google");
        reveal_strlit("type");
        reveal_strlit("write");
        reveal_strlit("key");
        reveal_strlit("keypress");
        reveal_strlit("press");
    }
    if str_eq(a, "search_web") || str_eq(a, "search") || str_eq(a, "google") {
        assert(is_one_of(a@, seq!["search_web"@, "search"@, "google"@]));
        if t.is_empty() {
            refuse("Provide a search query in `target`.")
        } else {
            let mut u = String::from_str("https://www.google.com/search?q=");
            let q = urlencoding(t);
            push_str(&mut u, q.as_str());
            ComputerStep::Search(u)
        }
    } else if str_eq(a, "type") || str_eq(a, "write") {
        assert(!is_one_of(a@, seq!["search_web"@, "search"@, "google"@]));
        assert(is_one_of(a@, seq!["type"@, "write"@]));
        if windows && t.is_empty() { refuse("Provide the text to type in `target`.") } else { ComputerStep::Type(t.to_string()) }
    } else if str_eq(a, "key") || str_eq(a, "keypress") || str_eq(a, "press") {
        assert(!is_one_of(a@, seq!["search_web"@, "search"@, "google"@]));
        assert(!is_one_of(a@, seq!["type"@, "write"@]));
        assert(is_one_of(a@, seq!["key"@, "keypress"@, "press"@]));
        if windows && t.is_empty() {
            refuse("Provide a key name in `target` (e.g. Return, Tab).")
        } else {
            ComputerStep::Key(t.to_string())
        }
    } else {
        assert(!is_one_of(a@, seq!["search_web"@, "search"@, "google"@]));
        assert(!is_one_of(a@, seq!["type"@, "write"@]));
        assert(!is_one_of(a@, seq!["key"@, "keypress"@, "press"@]));
        if str_eq(a, "click") {
            match (x, y) {
                (Some(p), Some(q)) => {
                    if p < 0 || q < 0 {
                        refuse("Provide x and y pixel coordinates for click.")
                    } else {
                        ComputerStep::Click(p, q)
                    }
                }
                _ => refuse("Provide x and y pixel coordinates for click."),
            }
        } else {
            let mut m = String::from_str("Unknown action \"");
            push_str(&mut m, a);
            push_str(&mut m, UNKNOWN_TAIL);
            ComputerStep::Answer(failure(m))
        }
    }
}

fn url_of(t: &str) -> (r: String)
    ensures
        r@ == url_for(t@),
{
    let v = chars_of(t);
    if has_prefix(&v, "http") {
        t.to_string()
    } else {
        let mut u = String::from_str("https://");
        push_str(&mut u, t);
        u
    }
}

// ── What the model is told ────────────────────────────────────────────────

fn msg2(a: &str, b: &str) -> (r: String)
    ensures
        r@ == a@ + b@,
{
    let mut s = String::from_str(a);
    push_str(&mut s, b);
    s
}

fn msg3(a: &str, b: &str, c: &str) -> (r: String)
    ensures
        r@ == a@ + b@ + c@,
{
    let mut s = String::from_str(a);
    push_str(&mut s, b);
    push_str(&mut s, c);
    s
}

/// The answer once the platform has carried out (or failed) a step.
/// `Answer` and `OpenApp` have answers of their own (see `opened`).
pub open spec fn outcome_is(r: ToolResult, step: ComputerStep, outcome: Result<(), Seq<char>>, windows: bool) -> bool {
    match step {
        ComputerStep::Quit(t) => is_success(r, if windows { "Asked "@ + t@ + " to close."@ } else { "Quit "@ + t@ + "."@ }),
        ComputerStep::OpenUrl(u) => match outcome {
            Ok(()) => is_success(r, "Opened "@ + u@),
            Err(e) => is_failure(r, "Couldn't open "@ + u@ + ": "@ + e),
        },
        ComputerStep::Search(_) => r.ok == (outcome is Ok),
        ComputerStep::Type(t) => match outcome {
            Ok(()) => is_success(r, "Typed: "@ + t@),
            Err(e) => is_failure(r, if windows { "Type failed: "@ + e } else {
                "Type failed — grant Accessibility permission to LlamaChat in System Settings ▸ Privacy. ("@ + e + ")"@
            }),
        },
        ComputerStep::Key(t) => match outcome {
            Ok(()) => is_success(r, "Pressed "@ + t@ + "."@),
            Err(e) => is_failure(r, if windows { "Key failed: "@ + e } else {
                "Key failed — grant Accessibility permission. ("@ + e + ")"@
            }),
        },
        ComputerStep::Click(x, y) => match outcome {
            Ok(()) => is_success(r, "Clicked at "@ + int_decimal(x as int) + ", "@ + int_decimal(y as int) + "."@),
            Err(e) => is_failure(r, "Click failed: "@ + e),
        },
        ComputerStep::Answer(res) => r == res,
        ComputerStep::OpenApp(_) => r.ok == (outcome is Ok),
    }
}

impl ComputerTool {
    /// The answer for a step the platform has carried out; a web search is
    /// reported with its query, which the caller passes as `query`.
    pub fn finish(&self, step: ComputerStep, outcome: Result<(), String>, query: &str, windows: bool) -> (r: ToolResult)
        ensures
            outcome_is(r, step, match outcome { Ok(()) => Ok(()), Err(e) => Err(e@) }, windows),
            step is Search ==> match outcome {
                Ok(()) => is_success(r, "Searched the web for \""@ + query@ + "\"."@),
                Err(e) => is_failure(r, "Search failed: "@ + e@),
            },
            step is OpenApp ==> match outcome {
                Ok(()) => is_success(r, "Opened "@ + query@ + "."@),
                Err(e) => is_failure(r, e@),
            },
    {
        match step {
            ComputerStep::Answer(res) => res,
            ComputerStep::OpenApp(_) => match outcome {
                Ok(()) => success(msg3("Opened ", query, ".")),
                Err(e) => failure(e),
            },
            ComputerStep::Quit(t) => {
                if windows {
                    success(msg3("Asked ", t.as_str(), " to close."))
                } else {
                    success(msg3("Quit ", t.as_str(), "."))
                }
            }
            ComputerStep::OpenUrl(u) => match outcome {
                Ok(()) => success(msg2("Opened ", u.as_str())),
                Err(e) => {
                    let mut m = msg3("Couldn't open ", u.as_str(), ": ");
                    push_str(&mut m, e.as_str());
                    failure(m)
                }
            },
            ComputerStep::Search(_) => match outcome {
                Ok(()) => success(msg3("Searched the web for \"", query, "\".")),
                Err(e) => failure(msg2("Search failed: ", e.as_str())),
            },
            ComputerStep::Type(t) => match outcome {
                Ok(()) => success(msg2("Typed: ", t.as_str())),
                Err(e) => if windows {
                    failure(msg2("Type failed: ", e.as_str()))
                } else {
                    failure(msg3("Type failed — grant Accessibility permission to LlamaChat in System Settings ▸ Privacy. (", e.as_str(), ")"))
                },
            },
            ComputerStep::Key(t) => match outcome {
                Ok(()) => success(msg3("Pressed ", t.as_str(), ".")),
                Err(e) => if windows {
                    failure(msg2("Key failed: ", e.as_str()))
                } else {
                    failure(msg3("Key failed — grant Accessibility permission. (", e.as_str(), ")"))
                },
            },
            ComputerStep::Click(x, y) => match outcome {
                Ok(()) => {
                    let mut m = String::from_str("Clicked at ");
                    push_int(&mut m, x);
                    push_str(&mut m, ", ");
                    push_int(&mut m, y);
                    push_str(&mut m, ".");
                    success(m)
                }
                Err(e) => failure(msg2("Click failed: ", e.as_str())),
            },
        }
    }
}

pub const NO_CLICLICK: &'static str = "Clicking at coordinates needs `cliclick` (run `brew install cliclick`). App-launch, web-search, typing and keys work without it.";

/// The answer when an app could not be launched by its exact name and a
/// fuzzy search was tried: the app found and how opening it went, or that no
/// installed app matches (`windows` names where it looked).
pub fn app_not_opened(target: &str, found: Option<&str>, err: &str, windows: bool) -> (r: ToolResult)
    ensures
        match found {
            Some(f) => is_failure(r, "Found \""@ + f@ + "\" but couldn't open it: "@ + err@),
            None => is_failure(r, "No installed app matches \""@ + target@ + (if windows {
                "\" (checked the Start Menu and PATH). It may not be installed, or the name differs — do not assume it opened."@
            } else {
                "\" (checked Applications). It may not be installed, or the name differs — do not assume it opened."@
            })),
        },
{
    match found {
        Some(f) => {
            let mut m = msg3("Found \"", f, "\" but couldn't open it: ");
            push_str(&mut m, err);
            failure(m)
        }
        None => if windows {
            failure(msg3("No installed app matches \"", target,
                "\" (checked the Start Menu and PATH). It may not be installed, or the name differs — do not assume it opened."))
        } else {
            failure(msg3("No installed app matches \"", target,
                "\" (checked Applications). It may not be installed, or the name differs — do not assume it opened."))
        },
    }
}

// ── macOS scripts ──────────────────────────────────────────────────────────

/// `s` with each double quote turned into a single quote.
pub open spec fn unquoted(s: Seq<char>) -> Seq<char> {
    Seq::new(s.len(), |i: int| if s[i] == '"' { '\'' } else { s[i] })
}

/// `s` with backslashes and then double quotes escaped for AppleScript.
pub open spec fn applescript_escaped(s: Seq<char>) -> Seq<char>
    decreases s.len(),
{
    if s.len() == 0 {
        s
    } else {
        applescript_escaped(s.drop_last()) + (if s.last() == '\\' {
            seq!['\\', '\\']
        } else if s.last() == '"' {
            seq!['\\', '"']
        } else {
            seq![s.last()]
        })
    }
}

/// `s` with double quotes escaped (backslashes left alone).
pub open spec fn quotes_escaped(s: Seq<char>) -> Seq<char>
    decreases s.len(),
{
    if s.len() == 0 {
        s
    } else {
        quotes_escaped(s.drop_last()) + (if s.last() == '"' { seq!['\\', '"'] } else { seq![s.last()] })
    }
}

fn push_mapped(out: &mut String, s: &str, backslashes: bool)
    ensures
        final(out)@ == old(out)@ + (if backslashes { applescript_escaped(s@) } else { quotes_escaped(s@) }),
{
    let v = chars_of(s);
    let mut i: usize = 0;
    while i < v.len()
        invariant
            i <= v@.len(),
            v@ == s@,
            out@ == old(out)@ + (if backslashes { applescript_escaped(v@.take(i as int)) } else { quotes_escaped(v@.take(i as int)) }),
        decreases v@.len() - i,
    {
        let c = v[i];
        if backslashes && c == '\\' {
            push_char(out, '\\');
            push_char(out, '\\');
        } else if c == '"' {
            push_char(out, '\\');
            push_char(out, '"');
        } else {
            push_char(out, c);
        }
        i = i + 1;
        assert(v@.take(i as int).drop_last() =~= v@.take(i - 1));
        assert(out@ =~= old(out)@ + (if backslashes { applescript_escaped(v@.take(i as int)) } else { quotes_escaped(v@.take(i as int)) }));
    }
    assert(v@.take(v@.len() as int) =~= v@);
}

/// The script that asks an app to quit.
pub fn quit_script(target: &str) -> (r: String)
    ensures
        r@ == "tell application \""@ + unquoted(target@) + "\" to quit"@,
{
    let v = chars_of(target);
    let mut s = String::from_str("tell application \"");
    let ghost head = s@;
    let mut i: usize = 0;
    while i < v.len()
        invariant
            i <= v@.len(),
            v@ == target@,
            s@ == head + unquoted(target@).take(i as int),
        decreases v@.len() - i,
    {
        push_char(&mut s, if v[i] == '"' { '\'' } else { v[i] });
        i = i + 1;
        assert(s@ =~= head + unquoted(target@).take(i as int));
    }
    assert(unquoted(target@).take(v@.len() as int) =~= unquoted(target@));
    push_str(&mut s, "\" to quit");
    s
}

/// The script that types `text` into the focused field.
pub fn type_script(text: &str) -> (r: String)
    ensures
        r@ == "tell application \"System Events\" to keystroke \""@ + applescript_escaped(text@) + "\""@,
{
    let mut s = String::from_str("tell application \"System Events\" to keystroke \"");
    push_mapped(&mut s, text, true);
    push_str(&mut s, "\"");
    s
}

/// The System Events command for a named key: a key code for the keys it
/// knows (by the lowercased name), else a keystroke of the name itself.
pub open spec fn key_command(name: Seq<char>) -> Seq<char> {
    let k = unicode_lowercase(name);
    if k == "return"@ || k == "enter"@ {
        "key code 36"@
    } else if k == "tab"@ {
        "key code 48"@
    } else if k == "space"@ {
        "key code 49"@
    } else if k == "escape"@ || k == "esc"@ {
        "key code 53"@
    } else if k == "delete"@ || k == "backspace"@ {
        "key code 51"@
    } else if k == "down"@ {
        "key code 125"@
    } else if k == "up"@ {
        "key code 126"@
    } else {
        "keystroke \""@ + quotes_escaped(name) + "\""@
    }
}

pub fn key_script(name: &str) -> (r: String)
    ensures
        r@ == "tell application \"System Events\" to "@ + key_command(name@),
{
    let mut s = String::from_str("tell application \"System Events\" to ");
    let low = crate::text::to_lowercase(name);
    let k = low.as_str();
    if str_eq(k, "return") || str_eq(k, "enter") {
        push_str(&mut s, "key code 36");
    } else if str_eq(k, "tab") {
        push_str(&mut s, "key code 48");
    } else if str_eq(k, "space") {
        push_str(&mut s, "key code 49");
    } else if str_eq(k, "escape") || str_eq(k, "esc") {
        push_str(&mut s, "key code 53");
    } else if str_eq(k, "delete") || str_eq(k, "backspace") {
        push_str(&mut s, "key code 51");
    } else if str_eq(k, "down") {
        push_str(&mut s, "key code 125");
    } else if str_eq(k, "up") {
        push_str(&mut s, "key code 126");
    } else {
        push_str(&mut s, "keystroke \"");
        push_mapped(&mut s, name, false);
        push_str(&mut s, "\"");
    }
    s
}

/// The `cliclick` argument for a click.
pub fn click_arg(x: i64, y: i64) -> (r: String)
    ensures
        r@ == "c:"@ + int_decimal(x as int) + ","@ + int_decimal(y as int),
{
    let mut s = String::from_str("c:");
    push_int(&mut s, x);
    push_str(&mut s, ",");
    push_int(&mut s, y);
    s
}

// ── Windows: finding and driving apps ─────────────────────────────────────

/// What `char::is_alphanumeric` says of `c` (Unicode letters and numbers).
pub uninterp spec fn unicode_alnum(c: char) -> bool;

/// What `char::to_lowercase` yields for `c`.
pub uninterp spec fn char_lowercase(c: char) -> Seq<char>;

/// `char::is_alphanumeric`.
#[verifier::external_body]
fn is_alnum(c: char) -> (r: bool)
    ensures
        r == unicode_alnum(c),
{
    c.is_alphanumeric()
}

/// `char::to_lowercase`, collected.
#[verifier::external_body]
fn lower_of(c: char) -> (r: String)
    ensures
        r@ == char_lowercase(c),
{
    c.to_lowercase().collect()
}

/// An app name for fuzzy matching: letters and digits only, lowercased.
pub open spec fn norm_of(s: Seq<char>) -> Seq<char>
    decreases s.len(),
{
    if s.len() == 0 {
        s
    } else {
        norm_of(s.drop_last()) + (if unicode_alnum(s.last()) { char_lowercase(s.last()) } else { Seq::empty() })
    }
}

pub fn norm(s: &str) -> (r: String)
    ensures
        r@ == norm_of(s@),
{
    let v = chars_of(s);
    let mut out = String::new();
    let mut i: usize = 0;
    while i < v.len()
        invariant
            i <= v@.len(),
            v@ == s@,
            out@ == norm_of(v@.take(i as int)),
        decreases v@.len() - i,
    {
        if is_alnum(v[i]) {
            let l = lower_of(v[i]);
            push_str(&mut out, l.as_str());
        }
        i = i + 1;
        assert(v@.take(i as int).drop_last() =~= v@.take(i - 1));
    }
    assert(v@.take(v@.len() as int) =~= v@);
    out
}

/// How well a shortcut name matches what is wanted: 0 exact, 1 one is a
/// prefix of the other, 2 one contains the other, else no match.
pub open spec fn shortcut_rank(n: Seq<char>, want: Seq<char>) -> Option<u8> {
    if n.len() == 0 {
        None
    } else if n == want {
        Some(0)
    } else if starts_with(n, want) || starts_with(want, n) {
        Some(1)
    } else if contains(n, want) || contains(want, n) {
        Some(2)
    } else {
        None
    }
}

/// The best match among the first `k` names (normalised): the first exact
/// one, else the first of the best rank found.
pub open spec fn best_of(names: Seq<Seq<char>>, want: Seq<char>, k: int) -> Option<(u8, int)>
    decreases k,
{
    if k <= 0 {
        None
    } else {
        let prev = best_of(names, want, k - 1);
        match prev {
            Some((0, i)) => Some((0, i)),
            _ => match shortcut_rank(names[k - 1], want) {
                Some(r) => match prev {
                    Some((pr, pi)) => if r < pr { Some((r, k - 1)) } else { Some((pr, pi)) },
                    None => Some((r, k - 1)),
                },
                None => prev,
            },
        }
    }
}

fn rank_of(n: &str, want: &str) -> (r: Option<u8>)
    ensures
        r == shortcut_rank(n@, want@),
{
    let nv = chars_of(n);
    let wv = chars_of(want);
    if nv.len() == 0 {
        None
    } else if str_eq(n, want) {
        Some(0)
    } else if crate::text::matches_at(&nv, &wv, 0) || crate::text::matches_at(&wv, &nv, 0) {
        Some(1)
    } else if crate::text::find_vec(&nv, &wv, 0).is_some() || crate::text::find_vec(&wv, &nv, 0).is_some() {
        Some(2)
    } else {
        None
    }
}

/// Picks the Start-Menu shortcut whose (normalised) name best matches
/// `want`: its index among `names`. A `want` under two bytes matches nothing.
pub fn find_shortcut(want: &str, names: &Vec<String>) -> (r: Option<usize>)
    ensures
        crate::text::utf8_len(want@) < 2 ==> r is None,
        crate::text::utf8_len(want@) >= 2 ==> match best_of(names@.map_values(|n: String| norm_of(n@)), want@, names@.len() as int) {
            Some((_, i)) => r == Some(i as usize),
            None => r is None,
        },
{
    if crate::text::byte_len(want) < 2 {
        return None;
    }
    let ghost ns = names@.map_values(|n: String| norm_of(n@));
    let mut best: Option<(u8, usize)> = None;
    let mut k: usize = 0;
    while k < names.len()
        invariant
            k <= names@.len(),
            ns == names@.map_values(|n: String| norm_of(n@)),
            match best_of(ns, want@, k as int) {
                Some((r, i)) => best == Some((r, i as usize)) && i < k,
                None => best is None,
            },
        decreases names@.len() - k,
    {
        if let Some((0, _)) = best {
            assert(best_of(ns, want@, k + 1) == best_of(ns, want@, k as int));
        } else {
            let n = norm(names[k].as_str());
            assert(n@ == ns[k as int]);
            match rank_of(n.as_str(), want) {
                Some(r) => {
                    match best {
                        Some((pr, _)) => {
                            if r < pr {
                                best = Some((r, k));
                            }
                        }
                        None => {
                            best = Some((r, k));
                        }
                    }
                }
                None => {}
            }
        }
        k = k + 1;
    }
    match best {
        Some((_, i)) => Some(i),
        None => None,
    }
}

/// System apps that resolve through App-Paths without a shortcut, by their
/// normalised name.
pub open spec fn token_of(want: Seq<char>) -> Option<Seq<char>> {
    if want == "googlechrome"@ || want == "chrome"@ {
        Some("chrome"@)
    } else if want == "microsoftedge"@ || want == "edge"@ || want == "msedge"@ {
        Some("msedge"@)
    } else if want == "firefox"@ || want == "mozillafirefox"@ {
        Some("firefox"@)
    } else if want == "notepad"@ {
        Some("notepad"@)
    } else if want == "calculator"@ || want == "calc"@ {
        Some("calc"@)
    } else if want == "paint"@ || want == "mspaint"@ {
        Some("mspaint"@)
    } else if want == "wordpad"@ {
        Some("write"@)
    } else if want == "fileexplorer"@ || want == "explorer"@ || want == "windowsexplorer"@ || want == "files"@ {
        Some("explorer"@)
    } else if want == "commandprompt"@ || want == "cmd"@ || want == "command"@ {
        Some("cmd"@)
    } else if want == "powershell"@ {
        Some("powershell"@)
    } else if want == "windowsterminal"@ || want == "terminal"@ {
        Some("wt"@)
    } else if want == "taskmanager"@ {
        Some("taskmgr"@)
    } else if want == "controlpanel"@ {
        Some("control"@)
    } else if want == "settings"@ {
        Some("ms-settings:"@)
    } else {
        None
    }
}

pub fn known_token(want: &str) -> (r: Option<&'static str>)
    ensures
        match token_of(want@) {
            Some(t) => r matches Some(s) && s@ == t,
            None => r is None,
        },
{
    if str_eq(want, "googlechrome") || str_eq(want, "chrome") {
        Some("chrome")
    } else if str_eq(want, "microsoftedge") || str_eq(want, "edge") || str_eq(want, "msedge") {
        Some("msedge")
    } else if str_eq(want, "firefox") || str_eq(want, "mozillafirefox") {
        Some("firefox")
    } else if str_eq(want, "notepad") {
        Some("notepad")
    } else if str_eq(want, "calculator") || str_eq(want, "calc") {
        Some("calc")
    } else if str_eq(want, "paint") || str_eq(want, "mspaint") {
        Some("mspaint")
    } else if str_eq(want, "wordpad") {
        Some("write")
    } else if str_eq(want, "fileexplorer") || str_eq(want, "explorer") || str_eq(want, "windowsexplorer") || str_eq(want, "files") {
        Some("explorer")
    } else if str_eq(want, "commandprompt") || str_eq(want, "cmd") || str_eq(want, "command") {
        Some("cmd")
    } else if str_eq(want, "powershell") {
        Some("powershell")
    } else if str_eq(want, "windowsterminal") || str_eq(want, "terminal") {
        Some("wt")
    } else if str_eq(want, "taskmanager") {
        Some("taskmgr")
    } else if str_eq(want, "controlpanel") {
        Some("control")
    } else if str_eq(want, "settings") {
        Some("ms-settings:")
    } else {
        None
    }
}

/// The image name to close for an app: the trimmed name, with `.exe` added
/// unless it already ends so (in any case).
pub open spec fn image_of(target: Seq<char>) -> Seq<char> {
    let want = trim(target);
    if crate::text::ends_with(lower(want), ".exe"@) { want } else { want + ".exe"@ }
}

pub fn quit_image(target: &str) -> (r: String)
    ensures
        r@ == image_of(target@),
{
    let want = trimmed(target);
    let low = lower_vec(&chars_of(want.as_str()));
    if has_suffix(&low, ".exe") {
        want
    } else {
        let mut s = want;
        push_str(&mut s, ".exe");
        s
    }
}

/// PowerShell single-quote escaping: each `'` doubled.
pub open spec fn ps_quoted(s: Seq<char>) -> Seq<char>
    decreases s.len(),
{
    if s.len() == 0 {
        s
    } else {
        ps_quoted(s.drop_last()) + (if s.last() == '\'' { seq!['\'', '\''] } else { seq![s.last()] })
    }
}

/// The PowerShell command that launches a program, URL or shortcut.
pub fn launch_command(target: &str) -> (r: String)
    ensures
        r@ == "Start-Process -FilePath '"@ + ps_quoted(target@) + "'"@,
{
    let v = chars_of(target);
    let mut s = String::from_str("Start-Process -FilePath '");
    let ghost head = s@;
    let mut i: usize = 0;
    while i < v.len()
        invariant
            i <= v@.len(),
            v@ == target@,
            s@ == head + ps_quoted(v@.take(i as int)),
        decreases v@.len() - i,
    {
        if v[i] == '\'' {
            push_char(&mut s, '\'');
            push_char(&mut s, '\'');
        } else {
            push_char(&mut s, v[i]);
        }
        i = i + 1;
        assert(v@.take(i as int).drop_last() =~= v@.take(i - 1));
        assert(s@ =~= head + ps_quoted(v@.take(i as int)));
    }
    assert(v@.take(v@.len() as int) =~= v@);
    push_str(&mut s, "'");
    s
}

/// A key to press on Windows.
#[derive(Debug, Clone, PartialEq, Eq)]
pub enum WinKey {
    Return,
    Tab,
    Space,
    Escape,
    Backspace,
    Down,
    Up,
    Left,
    Right,
    Home,
    End,
    /// A single character.
    Char(char),
    /// A longer name, typed as text instead.
    Text(String),
}

/// The key for a name (trimmed and lowercased): the named keys, a single
/// character, or, for anything longer, the name typed as text.
pub open spec fn win_key_is(k: WinKey, name: Seq<char>) -> bool {
    let n = unicode_lowercase(trim(name));
    if n == "return"@ || n == "enter"@ {
        k == WinKey::Return
    } else if n == "tab"@ {
        k == WinKey::Tab
    } else if n == "space"@ {
        k == WinKey::Space
    } else if n == "escape"@ || n == "esc"@ {
        k == WinKey::Escape
    } else if n == "delete"@ || n == "backspace"@ {
        k == WinKey::Backspace
    } else if n == "down"@ {
        k == WinKey::Down
    } else if n == "up"@ {
        k == WinKey::Up
    } else if n == "left"@ {
        k == WinKey::Left
    } else if n == "right"@ {
        k == WinKey::Right
    } else if n == "home"@ {
        k == WinKey::Home
    } else if n == "end"@ {
        k == WinKey::End
    } else if n.len() == 1 {
        k == WinKey::Char(n[0])
    } else {
        k matches WinKey::Text(t) && t@ == n
    }
}

pub fn win_key(name: &str) -> (k: WinKey)
    ensures
        win_key_is(k, name@),
{
    let n = crate::text::to_lowercase(trimmed(name).as_str());
    let s = n.as_str();
    if str_eq(s, "return") || str_eq(s, "enter") {
        WinKey::Return
    } else if str_eq(s, "tab") {
        WinKey::Tab
    } else if str_eq(s, "space") {
        WinKey::Space
    } else if str_eq(s, "escape") || str_eq(s, "esc") {
        WinKey::Escape
    } else if str_eq(s, "delete") || str_eq(s, "backspace") {
        WinKey::Backspace
    } else if str_eq(s, "down") {
        WinKey::Down
    } else if str_eq(s, "up") {
        WinKey::Up
    } else if str_eq(s, "left") {
        WinKey::Left
    } else if str_eq(s, "right") {
        WinKey::Right
    } else if str_eq(s, "home") {
        WinKey::Home
    } else if str_eq(s, "end") {
        WinKey::End
    } else {
        let v = chars_of(s);
        if v.len() == 1 {
            WinKey::Char(v[0])
        } else {
            WinKey::Text(n)
        }
    }
}


/// An installed app (by the stem of its `.app` bundle) answers to a target
/// when their normalised names are equal or one contains the other.
pub open spec fn app_matches(stem: Seq<char>, want: Seq<char>) -> bool {
    let n = norm_of(stem);
    n.len() > 0 && (n == want || crate::text::contains(n, want) || crate::text::contains(want, n))
}

/// The first installed app, among the `.app` stems in the order the folders
/// were read, whose name fuzzily matches `target`; none for a target whose
/// normalised name is under two bytes.
pub fn find_app(target: &str, stems: &Vec<String>) -> (r: Option<usize>)
    ensures
        crate::text::utf8_len(norm_of(target@)) < 2 ==> r is None,
        crate::text::utf8_len(norm_of(target@)) >= 2 ==> match r {
            Some(i) => i < stems@.len() && app_matches(stems@[i as int]@, norm_of(target@))
                && forall|j: int| 0 <= j < i ==> !app_matches(#[trigger] stems@[j]@, norm_of(target@)),
            None => forall|j: int| 0 <= j < stems@.len() ==> !app_matches(#[trigger] stems@[j]@, norm_of(target@)),
        },
{
    let want = norm(target);
    if crate::text::byte_len(want.as_str()) < 2 {
        return None;
    }
    let wv = chars_of(want.as_str());
    let mut i: usize = 0;
    while i < stems.len()
        invariant
            i <= stems@.len(),
            wv@ == norm_of(target@),
            want@ == norm_of(target@),
            crate::text::utf8_len(norm_of(target@)) >= 2,
            forall|j: int| 0 <= j < i ==> !app_matches(#[trigger] stems@[j]@, norm_of(target@)),
        decreases stems@.len() - i,
    {
        let n = norm(stems[i].as_str());
        let nv = chars_of(n.as_str());
        if nv.len() > 0 {
            proof {
                crate::text::lemma_find_from_bounds(nv@, wv@, 0);
                crate::text::lemma_find_from_bounds(wv@, nv@, 0);
            }
            if crate::text::vec_is(&nv, want.as_str()) || crate::text::find_vec(&nv, &wv, 0).is_some() || crate::text::find_vec(&wv, &nv, 0).is_some() {
                return Some(i);
            }
        }
        i = i + 1;
    }
    None
}

} // verus!
