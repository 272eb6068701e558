//! Markdown persistence for chats and long-term memory.
//!
//! Everything the app remembers lives in human-readable `.md` files the user
//! owns: `<root>/conversations/<id>.md` holds one transcript per chat and
//! `<root>/memory.md` the durable facts injected into every chat. A
//! conversation is written with a small frontmatter and HTML-comment markers,
//! so it stays readable markdown and reads back into the same conversation.
//! Reading and writing the files is left to the caller; this module turns a
//! conversation into its text and back.

use vstd::prelude::*;
use crate::settings::is_ascii_alnum;
use crate::text::{
    chars_of, contains, ends_with, find, find_from, find_str, has_at, has_prefix, is_ws, line_at, lines_from, lines_of,
    push_char, push_range, push_str, slice_vec, starts_with, string_of_range, trim, trim_end, trim_start, trimmed,
};

verus! {

/// One message of a saved conversation.
#[derive(Debug, Clone)]
pub struct ConvMsg {
    pub role: String,
    pub content: String,
    pub timestamp: String,
}

/// A saved conversation.
#[derive(Debug, Clone)]
pub struct ConvDto {
    pub id: String,
    pub title: String,
    pub created_at: String,
    pub system_prompt: Option<String>,
    pub messages: Vec<ConvMsg>,
}

/// A message as plain values: role, content, timestamp.
pub type MsgV = (Seq<char>, Seq<char>, Seq<char>);

/// A conversation as plain values: id, title, creation time, system prompt,
/// messages.
pub type ConvV = (Seq<char>, Seq<char>, Seq<char>, Option<Seq<char>>, Seq<MsgV>);

pub open spec fn msg_v(m: ConvMsg) -> MsgV {
    (m.role@, m.content@, m.timestamp@)
}

pub open spec fn opt_v(o: Option<String>) -> Option<Seq<char>> {
    match o {
        Some(s) => Some(s@),
        None => None,
    }
}

pub open spec fn msgs_v(ms: Seq<ConvMsg>) -> Seq<MsgV> {
    ms.map_values(|m: ConvMsg| msg_v(m))
}

pub open spec fn conv_v(c: ConvDto) -> ConvV {
    (c.id@, c.title@, c.created_at@, opt_v(c.system_prompt), msgs_v(c.messages@))
}

// ── File names ─────────────────────────────────────────────────────────────

pub open spec fn stem_char(c: char) -> char {
    if is_ascii_alnum(c) || c == '-' || c == '_' { c } else { '_' }
}

/// A conversation id made safe as a file name: ASCII letters, digits, `-` and
/// `_` are kept, anything else becomes `_`.
pub open spec fn stem_of(id: Seq<char>) -> Seq<char> {
    Seq::new(id.len(), |i: int| stem_char(id[i]))
}

pub fn safe_stem(id: &str) -> (r: String)
    ensures
        r@ == stem_of(id@),
{
    let v = chars_of(id);
    let mut s = String::new();
    let mut i: usize = 0;
    while i < v.len()
        invariant
            i <= v@.len(),
            v@ == id@,
            s@ == stem_of(id@).take(i as int),
        decreases v@.len() - i,
    {
        let c = v[i];
        let keep = ('a' <= c && c <= 'z') || ('A' <= c && c <= 'Z') || ('0' <= c && c <= '9') || c == '-' || c == '_';
        push_char(&mut s, if keep { c } else { '_' });
        i = i + 1;
        assert(s@ =~= stem_of(id@).take(i as int));
    }
    assert(stem_of(id@).take(v@.len() as int) =~= stem_of(id@));
    s
}

/// Is a conversation worth a file? Not when every message is blank.
pub open spec fn worth_saving(c: ConvV) -> bool {
    exists|k: int| 0 <= k < c.4.len() && trim(#[trigger] c.4[k].1).len() > 0
}

pub fn should_save(conv: &ConvDto) -> (r: bool)
    ensures
        r == worth_saving(conv_v(*conv)),
{
    let mut i: usize = 0;
    while i < conv.messages.len()
        invariant
            i <= conv.messages@.len(),
            forall|k: int| 0 <= k < i ==> trim(#[trigger] conv.messages@[k].content@).len() == 0,
        decreases conv.messages@.len() - i,
    {
        let t = trimmed(conv.messages[i].content.as_str());
        if !t.as_str().is_empty() {
            assert(conv_v(*conv).4[i as int].1 == conv.messages@[i as int].content@);
            return true;
        }
        i = i + 1;
    }
    assert forall|k: int| 0 <= k < conv_v(*conv).4.len() implies trim(#[trigger] conv_v(*conv).4[k].1).len() == 0 by {
        assert(conv_v(*conv).4[k].1 == conv.messages@[k].content@);
    }
    false
}

// ── Escaping ───────────────────────────────────────────────────────────────

/// `s` with each newline written as the two characters `\n`.
pub open spec fn escape_nl(s: Seq<char>) -> Seq<char>
    decreases s.len(),
{
    if s.len() == 0 {
        s
    } else if s[0] == '\n' {
        seq!['\\', 'n'] + escape_nl(s.skip(1))
    } else {
        seq![s[0]] + escape_nl(s.skip(1))
    }
}

/// `s` with each `\n` pair (read left to right) turned back into a newline.
pub open spec fn unescape_nl(s: Seq<char>) -> Seq<char>
    decreases s.len(),
{
    if s.len() == 0 {
        s
    } else if s.len() >= 2 && s[0] == '\\' && s[1] == 'n' {
        seq!['\n'] + unescape_nl(s.skip(2))
    } else {
        seq![s[0]] + unescape_nl(s.skip(1))
    }
}

/// `s` with newlines replaced by spaces.
pub open spec fn space_nl(s: Seq<char>) -> Seq<char> {
    Seq::new(s.len(), |i: int| if s[i] == '\n' { ' ' } else { s[i] })
}

fn push_escaped(out: &mut String, s: &str)
    ensures
        final(out)@ == old(out)@ + escape_nl(s@),
{
    let v = chars_of(s);
    let mut i: usize = 0;
    assert(v@.skip(0) =~= v@);
    while i < v.len()
        invariant
            i <= v@.len(),
            v@ == s@,
            old(out)@ + escape_nl(s@) == out@ + escape_nl(v@.skip(i as int)),
        decreases v@.len() - i,
    {
        let ghost before = out@;
        if v[i] == '\n' {
            push_char(out, '\\');
            push_char(out, 'n');
        } else {
            push_char(out, v[i]);
        }
        assert(v@.skip(i as int).skip(1) =~= v@.skip(i + 1));
        assert(out@ + escape_nl(v@.skip(i + 1)) =~= before + escape_nl(v@.skip(i as int)));
        i = i + 1;
    }
    assert(escape_nl(v@.skip(i as int)) =~= Seq::<char>::empty());
    assert(out@ =~= old(out)@ + escape_nl(s@));
}

fn unescaped(v: &Vec<char>) -> (r: String)
    ensures
        r@ == unescape_nl(v@),
{
    let mut out = String::new();
    let mut i: usize = 0;
    assert(v@.skip(0) =~= v@);
    while i < v.len()
        invariant
            i <= v@.len(),
            unescape_nl(v@) == out@ + unescape_nl(v@.skip(i as int)),
        decreases v@.len() - i,
    {
        let ghost before = out@;
        let ghost rest = v@.skip(i as int);
        if i + 1 < v.len() && v[i] == '\\' && v[i + 1] == 'n' {
            push_char(&mut out, '\n');
            assert(rest.skip(2) =~= v@.skip(i + 2));
            i = i + 2;
        } else {
            push_char(&mut out, v[i]);
            assert(rest.skip(1) =~= v@.skip(i + 1));
            i = i + 1;
        }
        assert(out@ + unescape_nl(v@.skip(i as int)) =~= before + unescape_nl(rest));
    }
    assert(unescape_nl(v@.skip(i as int)) =~= Seq::<char>::empty());
    assert(out@ =~= unescape_nl(v@));
    out
}

// ── Writing ────────────────────────────────────────────────────────────────

/// A message's block: its marker line, its content without trailing
/// whitespace, and a blank line. Blank messages are left out.
pub open spec fn msg_md(m: MsgV) -> Seq<char> {
    if trim(m.1).len() == 0 {
        Seq::empty()
    } else {
        "<!--m:"@ + m.0 + " t:"@ + m.2 + "-->\n"@ + trim_end(m.1) + "\n\n"@
    }
}

pub open spec fn msgs_md(ms: Seq<MsgV>) -> Seq<char>
    decreases ms.len(),
{
    if ms.len() == 0 {
        Seq::empty()
    } else {
        msgs_md(ms.drop_last()) + msg_md(ms.last())
    }
}

/// The system prompt's frontmatter line, when it is not blank.
pub open spec fn system_md(sp: Option<Seq<char>>) -> Seq<char> {
    match sp {
        Some(p) => if trim(p).len() > 0 { "system: "@ + escape_nl(p) + "\n"@ } else { Seq::empty() },
        None => Seq::empty(),
    }
}

/// A conversation as markdown: frontmatter (title, creation time, system
/// prompt), then each message under its marker.
pub open spec fn md_of(c: ConvV) -> Seq<char> {
    "---\n"@ + "title: "@ + space_nl(c.1) + "\n"@ + "created: "@ + c.2 + "\n"@ + system_md(c.3) + "---\n\n"@
        + msgs_md(c.4)
}

fn push_spaced(out: &mut String, s: &str)
    ensures
        final(out)@ == old(out)@ + space_nl(s@),
{
    let v = chars_of(s);
    let mut i: usize = 0;
    while i < v.len()
        invariant
            i <= v@.len(),
            v@ == s@,
            out@ == old(out)@ + space_nl(s@).take(i as int),
        decreases v@.len() - i,
    {
        push_char(out, if v[i] == '\n' { ' ' } else { v[i] });
        i = i + 1;
        assert(out@ =~= old(out)@ + space_nl(s@).take(i as int));
    }
    assert(space_nl(s@).take(v@.len() as int) =~= space_nl(s@));
}

fn push_msg(out: &mut String, m: &ConvMsg)
    ensures
        final(out)@ == old(out)@ + msg_md(msg_v(*m)),
{
    let t = trimmed(m.content.as_str());
    if t.as_str().is_empty() {
        assert(old(out)@ + msg_md(msg_v(*m)) =~= old(out)@);
        return;
    }
    push_str(out, "<!--m:");
    push_str(out, m.role.as_str());
    push_str(out, " t:");
    push_str(out, m.timestamp.as_str());
    push_str(out, "-->\n");
    let v = chars_of(m.content.as_str());
    let e = crate::text::skip_ws_back(&v, 0, v.len());
    assert(v@.subrange(0, v@.len() as int) =~= v@);
    push_range(out, &v, 0, e);
    push_str(out, "\n\n");
    assert(final(out)@ =~= old(out)@ + msg_md(msg_v(*m)));
}

pub fn to_markdown(conv: &ConvDto) -> (r: String)
    ensures
        r@ == md_of(conv_v(*conv)),
{
    let mut s = String::from_str("---\n");
    push_str(&mut s, "title: ");
    push_spaced(&mut s, conv.title.as_str());
    push_str(&mut s, "\n");
    push_str(&mut s, "created: ");
    push_str(&mut s, conv.created_at.as_str());
    push_str(&mut s, "\n");
    match &conv.system_prompt {
        Some(sp) => {
            let t = trimmed(sp.as_str());
            if !t.as_str().is_empty() {
                push_str(&mut s, "system: ");
                push_escaped(&mut s, sp.as_str());
                push_str(&mut s, "\n");
            }
        }
        None => {}
    }
    push_str(&mut s, "---\n\n");
    let ghost head = s@;
    let ghost ms = msgs_v(conv.messages@);
    assert(head =~= "---\n"@ + "title: "@ + space_nl(conv.title@) + "\n"@ + "created: "@ + conv.created_at@ + "\n"@
        + system_md(opt_v(conv.system_prompt)) + "---\n\n"@);
    let mut i: usize = 0;
    assert(ms.take(0) =~= Seq::<MsgV>::empty());
    while i < conv.messages.len()
        invariant
            i <= conv.messages@.len(),
            ms == msgs_v(conv.messages@),
            s@ == head + msgs_md(ms.take(i as int)),
        decreases conv.messages@.len() - i,
    {
        push_msg(&mut s, &conv.messages[i]);
        i = i + 1;
        assert(ms.take(i as int).drop_last() =~= ms.take(i - 1));
        assert(s@ =~= head + msgs_md(ms.take(i as int)));
    }
    assert(ms.take(i as int) =~= ms);
    s
}

// ── Reading ────────────────────────────────────────────────────────────────

/// What the frontmatter lines set so far: title, creation time, system
/// prompt. A later line overrides an earlier one; a blank system prompt
/// leaves the previous one.
pub open spec fn front_step(st: (Seq<char>, Seq<char>, Option<Seq<char>>), l: Seq<char>) -> (Seq<char>, Seq<char>, Option<Seq<char>>) {
    if starts_with(l, "title:"@) {
        (trim(l.skip(6)), st.1, st.2)
    } else if starts_with(l, "created:"@) {
        (st.0, trim(l.skip(8)), st.2)
    } else if starts_with(l, "system:"@) {
        let sp = unescape_nl(trim(l.skip(7)));
        if sp.len() > 0 { (st.0, st.1, Some(sp)) } else { st }
    } else {
        st
    }
}

pub open spec fn front_fields(ls: Seq<Seq<char>>) -> (Seq<char>, Seq<char>, Option<Seq<char>>)
    decreases ls.len(),
{
    if ls.len() == 0 {
        (Seq::empty(), Seq::empty(), None)
    } else {
        front_step(front_fields(ls.drop_last()), ls.last())
    }
}

/// The state of reading the message lines: the messages so far, the role,
/// timestamp and content gathered for the current one.
pub type BodyState = (Seq<MsgV>, Option<Seq<char>>, Seq<char>, Seq<char>);

pub open spec fn body_init() -> BodyState {
    (Seq::empty(), None, Seq::empty(), Seq::empty())
}

/// A marker line: `<!--m:`, then anything, then `-->`.
pub open spec fn is_marker(l: Seq<char>) -> bool {
    starts_with(l, "<!--m:"@) && ends_with(l.skip(6), "-->"@)
}

/// What a marker line holds: `<role> t:<timestamp>`.
pub open spec fn marker_text(l: Seq<char>) -> Seq<char> {
    l.subrange(6, l.len() - 3)
}

/// A marker's role and timestamp, split at the first ` t:` and trimmed; no
/// timestamp when there is no ` t:`.
pub open spec fn split_marker(m: Seq<char>) -> (Seq<char>, Seq<char>) {
    match find(m, " t:"@) {
        Some(k) => (trim(m.take(k)), trim(m.skip(k + 3))),
        None => (trim(m), Seq::empty()),
    }
}

/// The current message joins the list when it has a role and some content.
pub open spec fn flush(st: BodyState) -> Seq<MsgV> {
    match st.1 {
        Some(r) => if trim(st.3).len() > 0 { st.0.push((r, trim(st.3), st.2)) } else { st.0 },
        None => st.0,
    }
}

/// One message line read: a marker starts a new message; any other line
/// belongs to the current message, and is dropped before the first marker.
pub open spec fn body_step(st: BodyState, l: Seq<char>) -> BodyState {
    if is_marker(l) {
        let (r, t) = split_marker(marker_text(l));
        (flush(st), Some(r), t, Seq::empty())
    } else if st.1 is Some {
        (st.0, st.1, st.2, st.3 + l + seq!['\n'])
    } else {
        st
    }
}

pub open spec fn body_from(st: BodyState, ls: Seq<Seq<char>>) -> BodyState
    decreases ls.len(),
{
    if ls.len() == 0 {
        st
    } else {
        body_step(body_from(st, ls.drop_last()), ls.last())
    }
}

/// Where the frontmatter is: `---` on the first line, closed by the next
/// `---` line. Returns the frontmatter, where the messages start, and
/// whether there is a frontmatter.
pub open spec fn split_front(text: Seq<char>) -> (Seq<char>, int, bool) {
    if starts_with(text, "---\n"@) {
        match find_from(text, "\n---\n"@, 4) {
            Some(e) => (text.subrange(4, e), e + 5, true),
            None => (Seq::empty(), 0, false),
        }
    } else {
        (Seq::empty(), 0, false)
    }
}

/// The conversation read back from its markdown: the frontmatter's fields,
/// the messages found under their markers, and, when there is no title, the
/// first 60 characters of the first message (or `Conversation`).
pub open spec fn conv_of_md(id: Seq<char>, text: Seq<char>) -> ConvV {
    let (front, body_start, _has) = split_front(text);
    let (t, c, sp) = front_fields(lines_of(front));
    let msgs = flush(body_from(body_init(), lines_of(text.skip(body_start))));
    let title = if t.len() > 0 {
        t
    } else if msgs.len() > 0 {
        msgs[0].1.take(if msgs[0].1.len() < 60 { msgs[0].1.len() as int } else { 60 })
    } else {
        "Conversation"@
    };
    (id, title, c, sp, msgs)
}

fn front_of(front: &Vec<char>) -> (r: (String, String, Option<String>))
    ensures
        (r.0@, r.1@, opt_v(r.2)) == front_fields(lines_of(front@)),
{
    let n = front.len();
    let mut title = String::new();
    let mut created = String::new();
    let mut system: Option<String> = None;
    let mut i: usize = 0;
    let ghost mut done: Seq<Seq<char>> = seq![];
    assert(lines_of(front@) =~= done + lines_from(front@, 0));
    while i < n
        invariant
            n == front@.len(),
            i <= n,
            lines_of(front@) == done + lines_from(front@, i as int),
            (title@, created@, opt_v(system)) == front_fields(done),
        decreases n - i,
    {
        let (e, next) = line_at(front, i);
        let l = slice_vec(front, i, e);
        let ghost st = (title@, created@, opt_v(system));
        proof {
            reveal_strlit("title:");
            reveal_strlit("created:");
            reveal_strlit("system:");
        }
        if has_prefix(&l, "title:") {
            title = trimmed(string_of_range(&l, 6, l.len()).as_str());
            assert(l@.subrange(6, l@.len() as int) =~= l@.skip(6));
        } else if has_prefix(&l, "created:") {
            created = trimmed(string_of_range(&l, 8, l.len()).as_str());
            assert(l@.subrange(8, l@.len() as int) =~= l@.skip(8));
        } else if has_prefix(&l, "system:") {
            let t = trimmed(string_of_range(&l, 7, l.len()).as_str());
            assert(l@.subrange(7, l@.len() as int) =~= l@.skip(7));
            let tv = chars_of(t.as_str());
            let sp = unescaped(&tv);
            if !sp.as_str().is_empty() {
                system = Some(sp);
            }
        }
        proof {
            assert(lines_of(front@) =~= done.push(l@) + lines_from(front@, next as int));
            assert(done.push(l@).drop_last() =~= done);
            done = done.push(l@);
        }
        i = next;
    }
    assert(lines_from(front@, i as int) =~= Seq::<Seq<char>>::empty());
    assert(lines_of(front@) =~= done);
    (title, created, system)
}

fn marker_line(l: &Vec<char>) -> (r: bool)
    ensures
        r == is_marker(l@),
        r ==> l@.len() >= 9,
{
    proof {
        reveal_strlit("<!--m:");
        reveal_strlit("-->");
    }
    if !has_prefix(l, "<!--m:") || l.len() < 9 {
        return false;
    }
    let r = has_at(l, "-->", l.len() - 3);
    assert(l@.skip(6).subrange(l@.len() - 9, l@.len() - 6) =~= l@.subrange(l@.len() - 3, l@.len() as int));
    r
}

fn split_marker_exec(m: &Vec<char>) -> (r: (String, String))
    ensures
        (r.0@, r.1@) == split_marker(m@),
{
    let mlen = m.len();
    proof {
        crate::text::lemma_find_from_bounds(m@, " t:"@, 0);
        reveal_strlit(" t:");
    }
    match find_str(m, " t:", 0) {
        Some(k) => {
            let r = trimmed(string_of_range(m, 0, k).as_str());
            let t = trimmed(string_of_range(m, k + 3, m.len()).as_str());
            assert(m@.subrange(0, k as int) =~= m@.take(k as int));
            assert(m@.subrange(k + 3, m@.len() as int) =~= m@.skip(k + 3));
            (r, t)
        }
        None => {
            let r = trimmed(string_of_range(m, 0, m.len()).as_str());
            assert(m@.subrange(0, m@.len() as int) =~= m@);
            (r, String::new())
        }
    }
}

fn flush_into(msgs: &mut Vec<ConvMsg>, role: &Option<String>, ts: &String, content: &String)
    ensures
        msgs_v(final(msgs)@) == flush((msgs_v(old(msgs)@), opt_v(*role), ts@, content@)),
{
    match role {
        Some(r) => {
            let c = trimmed(content.as_str());
            if !c.as_str().is_empty() {
                let m = ConvMsg { role: r.clone(), content: c, timestamp: ts.clone() };
                let ghost before = old(msgs)@;
                msgs.push(m);
                assert(msgs_v(msgs@) =~= msgs_v(before).push(msg_v(m)));
            }
        }
        None => {}
    }
}

fn body_of(body: &Vec<char>) -> (r: Vec<ConvMsg>)
    ensures
        msgs_v(r@) == flush(body_from(body_init(), lines_of(body@))),
{
    let n = body.len();
    let mut msgs: Vec<ConvMsg> = Vec::new();
    let mut role: Option<String> = None;
    let mut ts = String::new();
    let mut content = String::new();
    let mut i: usize = 0;
    let ghost mut done: Seq<Seq<char>> = seq![];
    assert(lines_of(body@) =~= done + lines_from(body@, 0));
    assert(msgs_v(msgs@) =~= Seq::<MsgV>::empty());
    while i < n
        invariant
            n == body@.len(),
            i <= n,
            lines_of(body@) == done + lines_from(body@, i as int),
            (msgs_v(msgs@), opt_v(role), ts@, content@) == body_from(body_init(), done),
        decreases n - i,
    {
        let (e, next) = line_at(body, i);
        let l = slice_vec(body, i, e);
        let ghost st = (msgs_v(msgs@), opt_v(role), ts@, content@);
        if marker_line(&l) {
            flush_into(&mut msgs, &role, &ts, &content);
            let mv = slice_vec(&l, 6, l.len() - 3);
            let (r, t) = split_marker_exec(&mv);
            role = Some(r);
            ts = t;
            content = String::new();
        } else if role.is_some() {
            push_range(&mut content, &l, 0, l.len());
            push_char(&mut content, '\n');
            assert(l@.subrange(0, l@.len() as int) =~= l@);
        }
        proof {
            assert(lines_of(body@) =~= done.push(l@) + lines_from(body@, next as int));
            assert(done.push(l@).drop_last() =~= done);
            assert((msgs_v(msgs@), opt_v(role), ts@, content@) =~= body_step(st, l@));
            done = done.push(l@);
        }
        i = next;
    }
    assert(lines_from(body@, i as int) =~= Seq::<Seq<char>>::empty());
    assert(lines_of(body@) =~= done);
    flush_into(&mut msgs, &role, &ts, &content);
    msgs
}

pub fn from_markdown(id: &str, text: &str) -> (r: ConvDto)
    ensures
        conv_v(r) == conv_of_md(id@, text@),
{
    let v = chars_of(text);
    let n = v.len();
    let mut title = String::new();
    let mut created_at = String::new();
    let mut system_prompt: Option<String> = None;
    let mut body_start: usize = 0;
    proof {
        reveal_strlit("---\n");
        reveal_strlit("\n---\n");
        crate::text::lemma_find_from_bounds(v@, "\n---\n"@, 4);
    }
    if has_prefix(&v, "---\n") {
        match find_str(&v, "\n---\n", 4) {
            Some(e) => {
                let front = slice_vec(&v, 4, e);
                let (t, c, sp) = front_of(&front);
                title = t;
                created_at = c;
                system_prompt = sp;
                body_start = e + 5;
            }
            None => {
                assert(lines_of(Seq::<char>::empty()) =~= Seq::<Seq<char>>::empty());
            }
        }
    } else {
        assert(lines_of(Seq::<char>::empty()) =~= Seq::<Seq<char>>::empty());
    }
    let body = slice_vec(&v, body_start, n);
    assert(body@ =~= text@.skip(body_start as int));
    let messages = body_of(&body);
    if title.as_str().is_empty() {
        if messages.len() > 0 {
            let cv = chars_of(messages[0].content.as_str());
            let k = if cv.len() < 60 { cv.len() } else { 60 };
            title = string_of_range(&cv, 0, k);
            assert(cv@.subrange(0, k as int) =~= cv@.take(k as int));
            assert(msgs_v(messages@)[0].1 == messages@[0].content@);
        } else {
            title = String::from_str("Conversation");
        }
    }
    ConvDto { id: id.to_string(), title, created_at, system_prompt, messages }
}

// ── Lines, written and read ────────────────────────────────────────────────

/// `ls`, each line ended by a newline.
pub open spec fn unlines(ls: Seq<Seq<char>>) -> Seq<char>
    decreases ls.len(),
{
    if ls.len() == 0 {
        Seq::empty()
    } else {
        ls[0] + seq!['\n'] + unlines(ls.drop_first())
    }
}

/// A line that reads back as itself: no newline in it, no carriage return
/// at its end.
pub open spec fn plain_line(l: Seq<char>) -> bool {
    !l.contains('\n') && !(l.len() > 0 && l.last() == '\r')
}

/// No carriage return directly before a newline.
pub open spec fn no_crlf(s: Seq<char>) -> bool {
    forall|j: int| 0 <= j < s.len() - 1 ==> !(s[j] == '\r' && #[trigger] s[j + 1] == '\n')
}

/// `s` split at each newline (the text after the last one is the last line).
pub open spec fn split_nl(s: Seq<char>) -> Seq<Seq<char>>
    decreases s.len(),
{
    match find(s, seq!['\n']) {
        Some(k) => if 0 <= k < s.len() {
            seq![s.take(k)] + split_nl(s.skip(k + 1))
        } else {
            seq![s]
        },
        None => seq![s],
    }
}

pub proof fn lemma_unlines_append(a: Seq<Seq<char>>, b: Seq<Seq<char>>)
    ensures
        unlines(a + b) == unlines(a) + unlines(b),
    decreases a.len(),
{
    if a.len() == 0 {
        assert(a + b =~= b);
        assert(unlines(a) + unlines(b) =~= unlines(b));
    } else {
        assert((a + b).drop_first() =~= a.drop_first() + b);
        lemma_unlines_append(a.drop_first(), b);
        assert(unlines(a + b) =~= unlines(a) + unlines(b));
    }
}

proof fn lemma_unlines_one(x: Seq<char>)
    ensures
        unlines(seq![x]) == x + seq!['\n'],
{
    assert(seq![x].drop_first() =~= Seq::<Seq<char>>::empty());
    assert(unlines(Seq::<Seq<char>>::empty()) =~= Seq::<char>::empty());
    assert(unlines(seq![x]) =~= x + seq!['\n']);
}

proof fn lemma_find_nl(s: Seq<char>, i: int, k: int)
    requires
        0 <= i <= k < s.len(),
        s[k] == '\n',
        forall|j: int| i <= j < k ==> s[j] != '\n',
    ensures
        find_from(s, seq!['\n'], i) == Some(k),
    decreases k - i,
{
    if i == k {
        assert(s.subrange(i, i + 1) =~= seq!['\n']);
    } else {
        assert(s.subrange(i, i + 1)[0] == s[i]);
        lemma_find_nl(s, i + 1, k);
    }
}

proof fn lemma_no_nl(s: Seq<char>, i: int)
    requires
        0 <= i,
        forall|j: int| i <= j < s.len() ==> s[j] != '\n',
    ensures
        find_from(s, seq!['\n'], i) is None,
    decreases s.len() - i,
{
    if i + 1 <= s.len() {
        assert(s.subrange(i, i + 1)[0] == s[i]);
        lemma_no_nl(s, i + 1);
    }
}

/// A plain line at `i` followed by a newline is the next line `str::lines`
/// yields.
pub proof fn lemma_line_step(s: Seq<char>, i: int, l: Seq<char>)
    requires
        0 <= i,
        i + l.len() < s.len(),
        s.subrange(i, i + l.len()) == l,
        s[i + l.len()] == '\n',
        plain_line(l),
    ensures
        lines_from(s, i) == seq![l] + lines_from(s, i + l.len() + 1),
{
    assert forall|j: int| i <= j < i + l.len() implies s[j] != '\n' by {
        assert(s[j] == l[j - i]);
        assert(l.contains(l[j - i]));
    }
    lemma_find_nl(s, i, i + l.len());
}

/// The text after the last newline is the last line.
pub proof fn lemma_last_line(s: Seq<char>, i: int)
    requires
        0 <= i < s.len(),
        forall|j: int| i <= j < s.len() ==> s[j] != '\n',
    ensures
        lines_from(s, i) == seq![s.subrange(i, s.len() as int)],
{
    lemma_no_nl(s, i);
}

/// Plain lines, each ended by a newline, read back as themselves.
pub proof fn lemma_lines_unlines(s: Seq<char>, i: int, ls: Seq<Seq<char>>)
    requires
        0 <= i,
        i + unlines(ls).len() <= s.len(),
        s.subrange(i, i + unlines(ls).len()) == unlines(ls),
        forall|k: int| 0 <= k < ls.len() ==> plain_line(#[trigger] ls[k]),
    ensures
        lines_from(s, i) == ls + lines_from(s, i + unlines(ls).len()),
    decreases ls.len(),
{
    if ls.len() == 0 {
        assert(ls + lines_from(s, i) =~= lines_from(s, i));
    } else {
        let l = ls[0];
        let rest = ls.drop_first();
        let u = unlines(ls);
        assert(u == l + seq!['\n'] + unlines(rest));
        assert(s.subrange(i, i + l.len()) =~= l) by {
            assert forall|j: int| 0 <= j < l.len() implies s.subrange(i, i + l.len())[j] == l[j] by {
                assert(s.subrange(i, i + u.len())[j] == u[j]);
            }
        }
        assert(s[i + l.len()] == '\n') by {
            assert(s.subrange(i, i + u.len())[l.len() as int] == u[l.len() as int]);
        }
        assert(plain_line(ls[0]));
        lemma_line_step(s, i, l);
        let i2 = i + l.len() + 1;
        assert(s.subrange(i2, i2 + unlines(rest).len()) =~= unlines(rest)) by {
            assert forall|j: int| 0 <= j < unlines(rest).len() implies s.subrange(i2, i2 + unlines(rest).len())[j] == unlines(rest)[j] by {
                assert(s.subrange(i, i + u.len())[l.len() + 1 + j] == u[l.len() + 1 + j]);
            }
        }
        assert forall|k: int| 0 <= k < rest.len() implies plain_line(#[trigger] rest[k]) by {
            assert(rest[k] == ls[k + 1]);
        }
        lemma_lines_unlines(s, i2, rest);
        assert(ls =~= seq![l] + rest);
        assert(lines_from(s, i) =~= ls + lines_from(s, i + unlines(ls).len()));
    }
}

/// Splitting at newlines and ending each line with one gives back the text
/// with one more newline; with no `"\r\n"` and no final `'\r'`, the lines
/// are plain.
pub proof fn lemma_split_nl(s: Seq<char>)
    ensures
        unlines(split_nl(s)) == s + seq!['\n'],
        no_crlf(s) && !(s.len() > 0 && s.last() == '\r') ==> forall|k: int| 0 <= k < split_nl(s).len() ==> plain_line(#[trigger] split_nl(s)[k]),
    decreases s.len(),
{
    crate::text::lemma_find_from_bounds(s, seq!['\n'], 0);
    match find(s, seq!['\n']) {
        Some(k) => {
            assert(s.subrange(k, k + 1) =~= seq![s[k]]);
            let t = s.skip(k + 1);
            lemma_split_nl(t);
            assert(split_nl(s) =~= seq![s.take(k)] + split_nl(t));
            assert(split_nl(s).drop_first() =~= split_nl(t));
            assert(unlines(split_nl(s)) =~= s.take(k) + seq!['\n'] + unlines(split_nl(t)));
            assert(s =~= s.take(k) + seq!['\n'] + t);
            assert(unlines(split_nl(s)) =~= s + seq!['\n']);
            if no_crlf(s) && !(s.len() > 0 && s.last() == '\r') {
                assert forall|j: int| 0 <= j < t.len() - 1 implies !(t[j] == '\r' && #[trigger] t[j + 1] == '\n') by {
                    assert(t[j] == s[j + k + 1]);
                    assert(t[j + 1] == s[(j + k + 1) + 1]);
                }
                if t.len() > 0 {
                    assert(t.last() == s.last());
                }
                let h = s.take(k);
                assert(!h.contains('\n')) by {
                    if h.contains('\n') {
                        let j = choose|j: int| 0 <= j < h.len() && h[j] == '\n';
                        assert(s.subrange(j, j + 1) =~= seq!['\n']);
                        assert(crate::text::occurs_at(s, seq!['\n'], j));
                    }
                }
                if h.len() > 0 && h.last() == '\r' {
                    assert(s[k - 1] == '\r' && s[(k - 1) + 1] == '\n');
                }
                assert forall|i: int| 0 <= i < split_nl(s).len() implies plain_line(#[trigger] split_nl(s)[i]) by {
                    if i > 0 {
                        assert(split_nl(s)[i] == split_nl(t)[i - 1]);
                    }
                }
            }
        }
        None => {
            assert(unlines(seq![s]) =~= s + seq!['\n']) by {
                assert(seq![s].drop_first() =~= Seq::<Seq<char>>::empty());
                assert(unlines(seq![s].drop_first()) =~= Seq::<char>::empty());
            }
            assert(!s.contains('\n')) by {
                if s.contains('\n') {
                    let j = choose|j: int| 0 <= j < s.len() && s[j] == '\n';
                    assert(s.subrange(j, j + 1) =~= seq!['\n']);
                    assert(crate::text::occurs_at(s, seq!['\n'], j));
                }
            }
        }
    }
}

// ── Trimming and escaping facts ────────────────────────────────────────────

proof fn lemma_trim_end_len(s: Seq<char>)
    ensures
        trim_end(s).len() <= s.len(),
    decreases s.len(),
{
    if s.len() > 0 && is_ws(s.last()) {
        lemma_trim_end_len(s.drop_last());
    }
}

/// A trimmed, non-empty text starts and ends with non-whitespace.
proof fn lemma_trimmed_ends(s: Seq<char>)
    requires
        trim(s) == s,
        s.len() > 0,
    ensures
        !is_ws(s[0]),
        !is_ws(s.last()),
{
    crate::text::lemma_trim_start_len(s);
    if is_ws(s[0]) {
        crate::text::lemma_trim_start_len(s.drop_first());
        lemma_trim_end_len(trim_start(s));
        assert(trim(s).len() < s.len());
    }
    assert(trim_start(s) == s);
    if is_ws(s.last()) {
        lemma_trim_end_len(s.drop_last());
        assert(trim(s).len() < s.len());
    }
}

/// Text that starts and ends with non-whitespace is its own trim.
proof fn lemma_trim_of_ends(s: Seq<char>)
    requires
        s.len() > 0,
        !is_ws(s[0]),
        !is_ws(s.last()),
    ensures
        trim(s) == s,
        trim_end(s) == s,
{
}

/// A trimmed text after one space trims back to itself.
proof fn lemma_trim_after_space(x: Seq<char>)
    requires
        trim(x) == x,
    ensures
        trim(seq![' '] + x) == x,
{
    let y = seq![' '] + x;
    assert(y.drop_first() =~= x);
    if x.len() == 0 {
        assert(trim_start(x) =~= x);
    } else {
        lemma_trimmed_ends(x);
    }
}

/// A trimmed, non-empty text followed by two newlines trims back to itself.
proof fn lemma_trim_two_newlines(c: Seq<char>)
    requires
        trim(c) == c,
        c.len() > 0,
    ensures
        trim(c + seq!['\n', '\n']) == c,
{
    lemma_trimmed_ends(c);
    let y = c + seq!['\n', '\n'];
    assert(y[0] == c[0]);
    assert(trim_start(y) == y);
    assert(y.drop_last() =~= c + seq!['\n']);
    assert((c + seq!['\n']).drop_last() =~= c);
    assert(trim_end(c + seq!['\n']) == trim_end(c));
    lemma_trim_of_ends(c);
}

/// What `trim_end` leaves ends in non-whitespace, so trimming it again
/// changes nothing.
proof fn lemma_trim_end_idem(x: Seq<char>)
    ensures
        trim_end(x).len() > 0 ==> !is_ws(trim_end(x).last()),
        trim_end(trim_end(x)) == trim_end(x),
    decreases x.len(),
{
    if x.len() > 0 && is_ws(x.last()) {
        lemma_trim_end_idem(x.drop_last());
    }
}

/// Leading whitespace is skipped the same way with or without the last
/// character, unless nothing but whitespace is left.
proof fn lemma_trim_start_push(x: Seq<char>)
    requires
        x.len() > 0,
    ensures
        trim_start(x) == trim_start(x.drop_last()).push(x.last())
            || (trim_start(x).len() == 0 && trim_start(x.drop_last()).len() == 0),
    decreases x.len(),
{
    if x.len() == 1 {
        assert(x.drop_last() =~= Seq::<char>::empty());
        if !is_ws(x[0]) {
            assert(Seq::<char>::empty().push(x.last()) =~= x);
        } else {
            assert(trim_start(x) == trim_start(x.drop_first()));
            assert(x.drop_first() =~= Seq::<char>::empty());
        }
    } else if !is_ws(x[0]) {
        assert(x.drop_last()[0] == x[0]);
        assert(x.drop_last().push(x.last()) =~= x);
    } else {
        let y = x.drop_first();
        lemma_trim_start_push(y);
        assert(y.drop_last() =~= x.drop_last().drop_first());
        assert(x.drop_last()[0] == x[0]);
        assert(y.last() == x.last());
    }
}

/// Trailing whitespace does not change what `trim` gives.
proof fn lemma_trim_drop_ws(x: Seq<char>)
    requires
        x.len() > 0,
        is_ws(x.last()),
    ensures
        trim(x) == trim(x.drop_last()),
{
    lemma_trim_start_push(x);
    let t = trim_start(x.drop_last());
    if trim_start(x) == t.push(x.last()) {
        assert(t.push(x.last()).drop_last() =~= t);
        assert(t.push(x.last()).last() == x.last());
    } else {
        assert(trim_start(x) =~= Seq::<char>::empty());
        assert(t =~= Seq::<char>::empty());
    }
}

/// Trimming the end first does not change what `trim` gives.
pub proof fn lemma_trim_of_trim_end(x: Seq<char>)
    ensures
        trim(trim_end(x)) == trim(x),
    decreases x.len(),
{
    if x.len() > 0 && is_ws(x.last()) {
        lemma_trim_of_trim_end(x.drop_last());
        lemma_trim_drop_ws(x);
    }
}

/// Newlines after a text do not change what `trim` gives.
proof fn lemma_trim_newlines_after(c: Seq<char>)
    ensures
        trim(c + seq!['\n', '\n']) == trim(c),
{
    let y = c + seq!['\n', '\n'];
    assert(is_ws('\n'));
    assert(y.drop_last() =~= c + seq!['\n']);
    lemma_trim_drop_ws(y);
    assert((c + seq!['\n']).drop_last() =~= c);
    lemma_trim_drop_ws(c + seq!['\n']);
}

/// Two characters `\` and `n` in a row.
pub open spec fn no_escape_pair(s: Seq<char>) -> bool {
    forall|j: int| 0 <= j < s.len() - 1 ==> !(s[j] == '\\' && #[trigger] s[j + 1] == 'n')
}

proof fn lemma_escape_shape(s: Seq<char>)
    ensures
        !escape_nl(s).contains('\n'),
        s.len() > 0 ==> escape_nl(s).len() > 0,
        s.len() > 0 && s[0] != '\n' ==> escape_nl(s)[0] == s[0],
        s.len() > 0 && s[0] == '\n' ==> escape_nl(s)[0] == '\\',
        s.len() > 0 && s.last() != '\n' ==> escape_nl(s).last() == s.last(),
    decreases s.len(),
{
    if s.len() > 0 {
        let t = s.skip(1);
        lemma_escape_shape(t);
        let e = escape_nl(s);
        let head = if s[0] == '\n' { seq!['\\', 'n'] } else { seq![s[0]] };
        assert(e == head + escape_nl(t));
        assert(!e.contains('\n')) by {
            if e.contains('\n') {
                let j = choose|j: int| 0 <= j < e.len() && e[j] == '\n';
                if j >= head.len() {
                    assert(escape_nl(t).contains(escape_nl(t)[j - head.len()]));
                }
            }
        }
        if s.last() != '\n' {
            if t.len() > 0 {
                assert(t.last() == s.last());
            } else {
                assert(s.len() == 1);
                assert(escape_nl(t) =~= Seq::<char>::empty());
            }
        }
    }
}

/// Unescaping what was escaped gives the text back, when the text has no
/// `\n` pair of its own.
proof fn lemma_unescape_escape(s: Seq<char>)
    requires
        no_escape_pair(s),
    ensures
        unescape_nl(escape_nl(s)) == s,
    decreases s.len(),
{
    if s.len() > 0 {
        let t = s.skip(1);
        assert(no_escape_pair(t)) by {
            assert forall|j: int| 0 <= j < t.len() - 1 implies !(t[j] == '\\' && #[trigger] t[j + 1] == 'n') by {
                assert(t[j] == s[j + 1]);
                assert(t[j + 1] == s[(j + 1) + 1]);
            }
        }
        lemma_unescape_escape(t);
        lemma_escape_shape(t);
        let e = escape_nl(s);
        if s[0] == '\n' {
            assert(e == seq!['\\', 'n'] + escape_nl(t));
            assert(e.skip(2) =~= escape_nl(t));
            assert(unescape_nl(e) =~= seq!['\n'] + unescape_nl(escape_nl(t)));
        } else {
            assert(e == seq![s[0]] + escape_nl(t));
            assert(e.skip(1) =~= escape_nl(t));
            if e.len() >= 2 && e[0] == '\\' && e[1] == 'n' {
                assert(t.len() > 0);
                assert(escape_nl(t)[0] == 'n');
                assert(t[0] == 'n');
                assert(s[0] == '\\' && s[0int + 1] == 'n');
            }
            assert(unescape_nl(e) =~= seq![s[0]] + unescape_nl(escape_nl(t)));
        }
        assert(s =~= seq![s[0]] + t);
    }
}

// ── The round trip ─────────────────────────────────────────────────────────

/// A message that its markdown block reads back exactly: role and timestamp
/// trimmed, on one line, the role without ` t:`; content not blank, trimmed,
/// without `"\r\n"`, and with no line that looks like a marker.
pub open spec fn msg_round_trips(m: MsgV) -> bool {
    &&& trim(m.0) == m.0 && !m.0.contains('\n') && !contains(m.0, " t:"@)
    &&& trim(m.2) == m.2 && !m.2.contains('\n')
    &&& trim(m.1).len() > 0 && trim_end(m.1) == m.1 && no_crlf(m.1)
    &&& forall|k: int| 0 <= k < split_nl(m.1).len() ==> !is_marker(#[trigger] split_nl(m.1)[k])
}

/// A conversation that its markdown reads back exactly: a title that is not
/// blank, trimmed and on one line; a creation time trimmed and on one line;
/// a system prompt, if any, not blank, trimmed and free of `\n` pairs; and
/// messages that each read back.
pub open spec fn round_trips(c: ConvV) -> bool {
    &&& front_round_trips(c)
    &&& forall|k: int| 0 <= k < c.4.len() ==> msg_round_trips(#[trigger] c.4[k])
}

/// The frontmatter part of [`round_trips`].
pub open spec fn front_round_trips(c: ConvV) -> bool {
    &&& c.1.len() > 0 && trim(c.1) == c.1 && !c.1.contains('\n')
    &&& trim(c.2) == c.2 && !c.2.contains('\n')
    &&& match c.3 {
        Some(p) => p.len() > 0 && trim(p) == p && no_escape_pair(p),
        None => true,
    }
}

pub open spec fn marker_of(m: MsgV) -> Seq<char> {
    "<!--m:"@ + m.0 + " t:"@ + m.2 + "-->"@
}

pub open spec fn msg_lines(m: MsgV) -> Seq<Seq<char>> {
    seq![marker_of(m)] + split_nl(m.1) + seq![Seq::<char>::empty()]
}

pub open spec fn msgs_lines(ms: Seq<MsgV>) -> Seq<Seq<char>>
    decreases ms.len(),
{
    if ms.len() == 0 {
        Seq::empty()
    } else {
        msgs_lines(ms.drop_last()) + msg_lines(ms.last())
    }
}

/// The marker line of a round-tripping message is plain, is a marker, and
/// reads back as its role and timestamp.
proof fn lemma_marker(m: MsgV)
    requires
        msg_round_trips(m),
    ensures
        plain_line(marker_of(m)),
        is_marker(marker_of(m)),
        split_marker(marker_text(marker_of(m))) == (m.0, m.2),
{
    reveal_strlit("<!--m:");
    reveal_strlit(" t:");
    reveal_strlit("-->");
    let ml = marker_of(m);
    assert(!ml.contains('\n')) by {
        if ml.contains('\n') {
            let j = choose|j: int| 0 <= j < ml.len() && ml[j] == '\n';
            if 6 <= j < 6 + m.0.len() {
                assert(m.0.contains(m.0[j - 6]));
            } else if 9 + m.0.len() <= j < 9 + m.0.len() + m.2.len() {
                assert(m.2.contains(m.2[j - 9 - m.0.len()]));
            }
        }
    }
    assert(ml.last() == '>');
    assert(ml.skip(6).subrange(ml.len() - 9, ml.len() - 6) =~= "-->"@);
    assert(ml.subrange(0, 6) =~= "<!--m:"@);
    let mt = marker_text(ml);
    assert(mt =~= m.0 + " t:"@ + m.2);
    lemma_split_at_role(m.0, m.2);
    assert(mt.take(m.0.len() as int) =~= m.0);
    assert(mt.skip(m.0.len() as int + 3) =~= m.2);
}

proof fn lemma_msg_lines(m: MsgV)
    requires
        msg_round_trips(m),
    ensures
        msg_md(m) == unlines(msg_lines(m)),
        forall|k: int| 0 <= k < msg_lines(m).len() ==> plain_line(#[trigger] msg_lines(m)[k]),
        is_marker(marker_of(m)),
        split_marker(marker_text(marker_of(m))) == (m.0, m.2),
        forall|k: int| 1 <= k < msg_lines(m).len() ==> !is_marker(#[trigger] msg_lines(m)[k]),
{
    let c = m.1;
    lemma_trim_end_idem(c);
    lemma_split_nl(c);
    lemma_marker(m);
    let ml = marker_of(m);
    let sp = split_nl(c);
    let ls = msg_lines(m);
    assert(msg_md(m) == unlines(ls)) by {
        reveal_strlit("-->");
        reveal_strlit("-->\n");
        reveal_strlit("\n\n");
        lemma_unlines_append(seq![ml], sp);
        lemma_unlines_append(seq![ml] + sp, seq![Seq::<char>::empty()]);
        lemma_unlines_one(ml);
        lemma_unlines_one(Seq::<char>::empty());
        assert(msg_md(m) =~= unlines(ls));
    }
    assert forall|k: int| 0 <= k < ls.len() implies plain_line(#[trigger] ls[k]) by {
        if 1 <= k < ls.len() - 1 {
            assert(ls[k] == sp[k - 1]);
        }
    }
    assert forall|k: int| 1 <= k < ls.len() implies !is_marker(#[trigger] ls[k]) by {
        if k < ls.len() - 1 {
            assert(ls[k] == sp[k - 1]);
        } else {
            reveal_strlit("<!--m:");
            assert(ls[k] =~= Seq::<char>::empty());
        }
    }
}

/// The first ` t:` of `role t:ts` is the one after the role.
proof fn lemma_split_at_role(r: Seq<char>, t: Seq<char>)
    requires
        trim(r) == r,
        !contains(r, " t:"@),
    ensures
        find(r + " t:"@ + t, " t:"@) == Some(r.len() as int),
{
    reveal_strlit(" t:");
    let m = r + " t:"@ + t;
    let p = " t:"@;
    crate::text::lemma_find_from_bounds(r, p, 0);
    assert(crate::text::occurs_at(m, p, r.len() as int)) by {
        assert(m.subrange(r.len() as int, r.len() as int + 3) =~= p);
    }
    if r.len() > 0 {
        lemma_trimmed_ends(r);
    }
    assert forall|j: int| 0 <= j < r.len() implies !crate::text::occurs_at(m, p, j) by {
        if crate::text::occurs_at(m, p, j) {
            if j + 3 <= r.len() {
                assert(m.subrange(j, j + 3) =~= r.subrange(j, j + 3));
                assert(crate::text::occurs_at(r, p, j));
            } else if j == r.len() - 1 {
                assert(m[j] == r.last());
                assert(m.subrange(j, j + 3)[0] == ' ');
            } else {
                assert(j == r.len() - 2);
                assert(m.subrange(j, j + 3)[2] == m[j + 2]);
                assert(m[j + 2] == ' ');
            }
        }
    }
    lemma_find_first(m, p, 0, r.len() as int);
}

proof fn lemma_find_first(s: Seq<char>, p: Seq<char>, from: int, k: int)
    requires
        0 <= from <= k,
        crate::text::occurs_at(s, p, k),
        forall|j: int| from <= j < k ==> !crate::text::occurs_at(s, p, j),
    ensures
        find_from(s, p, from) == Some(k),
    decreases k - from,
{
    if from < k {
        lemma_find_first(s, p, from + 1, k);
    }
}

proof fn lemma_msgs_lines(ms: Seq<MsgV>)
    requires
        forall|k: int| 0 <= k < ms.len() ==> msg_round_trips(#[trigger] ms[k]),
    ensures
        msgs_md(ms) == unlines(msgs_lines(ms)),
        forall|k: int| 0 <= k < msgs_lines(ms).len() ==> plain_line(#[trigger] msgs_lines(ms)[k]),
    decreases ms.len(),
{
    if ms.len() > 0 {
        let init = ms.drop_last();
        assert forall|k: int| 0 <= k < init.len() implies msg_round_trips(#[trigger] init[k]) by {
            assert(init[k] == ms[k]);
        }
        lemma_msgs_lines(init);
        assert(msg_round_trips(ms[ms.len() - 1]));
        lemma_msg_lines(ms.last());
        lemma_unlines_append(msgs_lines(init), msg_lines(ms.last()));
        let a = msgs_lines(init);
        let b = msg_lines(ms.last());
        assert forall|k: int| 0 <= k < msgs_lines(ms).len() implies plain_line(#[trigger] msgs_lines(ms)[k]) by {
            if k < a.len() {
                assert(msgs_lines(ms)[k] == a[k]);
            } else {
                assert(msgs_lines(ms)[k] == b[k - a.len()]);
            }
        }
    }
}

proof fn lemma_body_append(st: BodyState, a: Seq<Seq<char>>, b: Seq<Seq<char>>)
    ensures
        body_from(st, a + b) == body_from(body_from(st, a), b),
    decreases b.len(),
{
    if b.len() == 0 {
        assert(a + b =~= a);
    } else {
        assert((a + b).drop_last() =~= a + b.drop_last());
        lemma_body_append(st, a, b.drop_last());
    }
}

/// Lines that are not markers add to the current message's content.
proof fn lemma_content_run(st: BodyState, ls: Seq<Seq<char>>)
    requires
        st.1 is Some,
        forall|k: int| 0 <= k < ls.len() ==> !is_marker(#[trigger] ls[k]),
    ensures
        body_from(st, ls) == (st.0, st.1, st.2, st.3 + unlines(ls)),
    decreases ls.len(),
{
    if ls.len() == 0 {
        assert(st.3 + unlines(ls) =~= st.3);
    } else {
        let init = ls.drop_last();
        assert forall|k: int| 0 <= k < init.len() implies !is_marker(#[trigger] init[k]) by {
            assert(init[k] == ls[k]);
        }
        lemma_content_run(st, init);
        assert(!is_marker(ls[ls.len() - 1]));
        lemma_unlines_append(init, seq![ls.last()]);
        assert(init + seq![ls.last()] =~= ls);
        lemma_unlines_one(ls.last());
        assert(st.3 + unlines(ls) =~= st.3 + unlines(init) + ls.last() + seq!['\n']);
    }
}

/// The messages as they read back: each content trimmed.
pub open spec fn read_back(ms: Seq<MsgV>) -> Seq<MsgV> {
    ms.map_values(|m: MsgV| (m.0, trim(m.1), m.2))
}

/// Reading the lines of round-tripping messages (after the blank line that
/// ends the frontmatter) leaves all but the last message in the list and the
/// last one gathered.
proof fn lemma_body_run(ms: Seq<MsgV>)
    requires
        forall|k: int| 0 <= k < ms.len() ==> msg_round_trips(#[trigger] ms[k]),
    ensures
        flush(body_from(body_init(), seq![Seq::<char>::empty()] + msgs_lines(ms))) == read_back(ms),
        ms.len() > 0 ==> body_from(body_init(), seq![Seq::<char>::empty()] + msgs_lines(ms))
            == (read_back(ms.drop_last()), Some(ms.last().0), ms.last().2, ms.last().1 + seq!['\n', '\n']),
        ms.len() == 0 ==> body_from(body_init(), seq![Seq::<char>::empty()] + msgs_lines(ms)) == body_init(),
    decreases ms.len(),
{
    reveal_strlit("<!--m:");
    let e = seq![Seq::<char>::empty()];
    assert(!is_marker(Seq::<char>::empty()));
    assert(e.drop_last() =~= Seq::<Seq<char>>::empty());
    assert(body_from(body_init(), e) == body_step(body_from(body_init(), Seq::<Seq<char>>::empty()), Seq::<char>::empty()));
    assert(body_from(body_init(), e) == body_init());
    if ms.len() == 0 {
        assert(e + msgs_lines(ms) =~= e);
        assert(flush(body_init()) =~= ms);
    } else {
        let init = ms.drop_last();
        let m = ms.last();
        assert forall|k: int| 0 <= k < init.len() implies msg_round_trips(#[trigger] init[k]) by {
            assert(init[k] == ms[k]);
        }
        lemma_body_run(init);
        assert(msg_round_trips(ms[ms.len() - 1]));
        lemma_msg_lines(m);
        let prev = body_from(body_init(), e + msgs_lines(init));
        assert(e + msgs_lines(ms) =~= (e + msgs_lines(init)) + msg_lines(m));
        lemma_body_append(body_init(), e + msgs_lines(init), msg_lines(m));
        let rest = split_nl(m.1) + seq![Seq::<char>::empty()];
        assert(msg_lines(m) =~= seq![marker_of(m)] + rest);
        lemma_body_append(prev, seq![marker_of(m)], rest);
        assert(seq![marker_of(m)].drop_last() =~= Seq::<Seq<char>>::empty());
        // The marker flushes the previous message and starts this one.
        assert(flush(prev) == read_back(init)) by {
            if init.len() > 0 {
                let q = init.last();
                assert(msg_round_trips(init[init.len() - 1]));
                lemma_trim_newlines_after(q.1);
                assert(read_back(init.drop_last()).push((q.0, trim(q.1), q.2)) =~= read_back(init));
            } else {
                assert(read_back(init) =~= Seq::<MsgV>::empty());
            }
        }
        let st1 = (read_back(init), Some(m.0), m.2, Seq::<char>::empty());
        assert(body_from(prev, seq![marker_of(m)]) == body_step(body_from(prev, Seq::<Seq<char>>::empty()), marker_of(m)));
        assert(body_from(prev, seq![marker_of(m)]) == st1);
        assert forall|k: int| 0 <= k < rest.len() implies !is_marker(#[trigger] rest[k]) by {
            assert(rest[k] == msg_lines(m)[k + 1]);
        }
        lemma_content_run(st1, rest);
        lemma_split_nl(m.1);
        lemma_unlines_append(split_nl(m.1), seq![Seq::<char>::empty()]);
        lemma_unlines_one(Seq::<char>::empty());
        assert(Seq::<char>::empty() + unlines(rest) =~= m.1 + seq!['\n', '\n']);
        let fin = body_from(body_init(), e + msgs_lines(ms));
        assert(init =~= ms.drop_last());
        assert(fin == (read_back(init), Some(m.0), m.2, m.1 + seq!['\n', '\n']));
        lemma_trim_newlines_after(m.1);
        assert(read_back(init).push((m.0, trim(m.1), m.2)) =~= read_back(ms));
    }
}

/// The frontmatter's lines: title, creation time, and the system prompt
/// when there is one.
pub open spec fn front_lines(c: ConvV) -> Seq<Seq<char>> {
    let base = seq!["title: "@ + c.1, "created: "@ + c.2];
    match c.3 {
        Some(p) => base.push("system: "@ + escape_nl(p)),
        None => base,
    }
}

/// The title and creation lines of a frontmatter that round-trips.
proof fn lemma_front_head(c: ConvV)
    requires
        front_round_trips(c),
    ensures
        space_nl(c.1) == c.1,
        !("title: "@ + c.1).contains('\n'),
        !("created: "@ + c.2).contains('\n'),
        plain_line("title: "@ + c.1),
        plain_line("created: "@ + c.2),
        ("created: "@ + c.2).len() > 0 && ("created: "@ + c.2)[0] == 'c',
        ("title: "@ + c.1).len() > 0,
{
    reveal_strlit("title: ");
    reveal_strlit("created: ");
    let l0 = "title: "@ + c.1;
    let l1 = "created: "@ + c.2;
    assert(space_nl(c.1) =~= c.1) by {
        assert forall|i: int| 0 <= i < c.1.len() implies c.1[i] != '\n' by {
            assert(c.1.contains(c.1[i]));
        }
    }
    lemma_trimmed_ends(c.1);
    assert(!l0.contains('\n')) by {
        if l0.contains('\n') {
            let j = choose|j: int| 0 <= j < l0.len() && l0[j] == '\n';
            assert(c.1.contains(c.1[j - 7]));
        }
    }
    assert(!l1.contains('\n')) by {
        if l1.contains('\n') {
            let j = choose|j: int| 0 <= j < l1.len() && l1[j] == '\n';
            assert(c.2.contains(c.2[j - 9]));
        }
    }
    if c.2.len() > 0 {
        lemma_trimmed_ends(c.2);
    }
}

/// The system line of a frontmatter whose prompt round-trips.
proof fn lemma_front_system(p: Seq<char>)
    requires
        p.len() > 0,
        trim(p) == p,
    ensures
        !("system: "@ + escape_nl(p)).contains('\n'),
        ("system: "@ + escape_nl(p)).len() > 0 && ("system: "@ + escape_nl(p))[0] == 's',
        system_md(Some(p)) == "system: "@ + escape_nl(p) + "\n"@,
{
    reveal_strlit("system: ");
    reveal_strlit("\n");
    let e = escape_nl(p);
    let l2 = "system: "@ + e;
    lemma_escape_shape(p);
    assert(!l2.contains('\n')) by {
        if l2.contains('\n') {
            let j = choose|j: int| 0 <= j < l2.len() && l2[j] == '\n';
            assert(e.contains(e[j - 8]));
        }
    }
    lemma_trimmed_ends(p);
}

proof fn lemma_front_lines_shape(c: ConvV)
    requires
        front_round_trips(c),
    ensures
        md_of(c) == "---\n"@ + unlines(front_lines(c)) + "---\n\n"@ + msgs_md(c.4),
        forall|k: int| 0 <= k < front_lines(c).len() ==> !(#[trigger] front_lines(c)[k]).contains('\n'),
        forall|k: int| 0 <= k < front_lines(c).len() ==> (#[trigger] front_lines(c)[k]).len() > 0,
        forall|k: int| 1 <= k < front_lines(c).len() ==> (#[trigger] front_lines(c)[k])[0] != '-',
        forall|k: int| 0 <= k < front_lines(c).len() - 1 ==> plain_line(#[trigger] front_lines(c)[k]),
        front_lines(c).len() >= 2,
{
    let fl = front_lines(c);
    let l0 = "title: "@ + c.1;
    let l1 = "created: "@ + c.2;
    lemma_front_head(c);
    lemma_unlines_one(l1);
    match c.3 {
        Some(p) => {
            let l2 = "system: "@ + escape_nl(p);
            lemma_front_system(p);
            lemma_unlines_one(l2);
            assert(fl =~= seq![l0, l1, l2]);
            assert(fl.drop_first() =~= seq![l1, l2]);
            assert(seq![l1, l2].drop_first() =~= seq![l2]);
            assert(unlines(seq![l1, l2]) == l1 + seq!['\n'] + unlines(seq![l2]));
            assert(unlines(fl) == l0 + seq!['\n'] + unlines(seq![l1, l2]));
            assert(md_of(c) =~= "---\n"@ + unlines(fl) + "---\n\n"@ + msgs_md(c.4)) by {
                reveal_strlit("title: ");
                reveal_strlit("created: ");
                reveal_strlit("\n");
            }
        }
        None => {
            assert(fl =~= seq![l0, l1]);
            assert(fl.drop_first() =~= seq![l1]);
            assert(unlines(fl) == l0 + seq!['\n'] + unlines(seq![l1]));
            assert(md_of(c) =~= "---\n"@ + unlines(fl) + "---\n\n"@ + msgs_md(c.4)) by {
                reveal_strlit("title: ");
                reveal_strlit("created: ");
                reveal_strlit("\n");
            }
        }
    }
}

/// Inside lines that have no newline, a newline is followed by the start of
/// the next line.
proof fn lemma_unlines_nl_next(ls: Seq<Seq<char>>, idx: int)
    requires
        forall|k: int| 0 <= k < ls.len() ==> !(#[trigger] ls[k]).contains('\n'),
        forall|k: int| 1 <= k < ls.len() ==> (#[trigger] ls[k]).len() > 0 && ls[k][0] != '-',
        0 <= idx,
        idx + 1 < unlines(ls).len(),
        unlines(ls)[idx] == '\n',
    ensures
        unlines(ls)[idx + 1] != '-',
    decreases ls.len(),
{
    let l = ls[0];
    let rest = ls.drop_first();
    let u = unlines(ls);
    assert(u == l + seq!['\n'] + unlines(rest));
    if idx < l.len() {
        assert(l.contains(l[idx]));
    } else if idx == l.len() {
        assert(rest.len() > 0);
        assert(unlines(rest) == rest[0] + seq!['\n'] + unlines(rest.drop_first()));
        assert(rest[0] == ls[1]);
        assert(u[idx + 1] == rest[0][0]);
    } else {
        assert forall|k: int| 0 <= k < rest.len() implies !(#[trigger] rest[k]).contains('\n') by {
            assert(rest[k] == ls[k + 1]);
        }
        assert forall|k: int| 1 <= k < rest.len() implies (#[trigger] rest[k]).len() > 0 && rest[k][0] != '-' by {
            assert(rest[k] == ls[k + 1]);
        }
        lemma_unlines_nl_next(rest, idx - l.len() - 1);
    }
}

/// The frontmatter of a round-tripping conversation closes at the `---`
/// written after its last line.
proof fn lemma_front_close(c: ConvV)
    requires
        front_round_trips(c),
    ensures
        find_from(md_of(c), "\n---\n"@, 4) == Some(4 + unlines(front_lines(c)).len() - 1),
        unlines(front_lines(c)).len() >= 1,
{
    reveal_strlit("---\n");
    reveal_strlit("---\n\n");
    reveal_strlit("\n---\n");
    lemma_front_lines_shape(c);
    let fl = front_lines(c);
    let u = unlines(fl);
    let md = md_of(c);
    let p = "\n---\n"@;
    let e = 4 + u.len() - 1;
    lemma_unlines_append(fl.drop_last(), seq![fl.last()]);
    assert(fl.drop_last() + seq![fl.last()] =~= fl);
    lemma_unlines_one(fl.last());
    assert(u.len() >= 1 && u.last() == '\n');
    assert(md.subrange(e, e + 5) =~= p);
    assert forall|j: int| 4 <= j < e implies !crate::text::occurs_at(md, p, j) by {
        if crate::text::occurs_at(md, p, j) {
            assert(md.subrange(j, j + 5)[0] == md[j]);
            assert(md.subrange(j, j + 5)[1] == md[j + 1]);
            assert(md[j] == u[j - 4]);
            assert(md[j + 1] == u[j - 3]);
            lemma_unlines_nl_next(fl, j - 4);
        }
    }
    lemma_find_first(md, p, 4, e);
}

/// The frontmatter's lines read back as the title, creation time and system
/// prompt.
proof fn lemma_front_fields(c: ConvV)
    requires
        front_round_trips(c),
    ensures
        front_fields(front_lines(c)) == (c.1, c.2, c.3),
{
    reveal_strlit("title: ");
    reveal_strlit("created: ");
    reveal_strlit("system: ");
    reveal_strlit("title:");
    reveal_strlit("created:");
    reveal_strlit("system:");
    let l0 = "title: "@ + c.1;
    let l1 = "created: "@ + c.2;
    assert(l0.subrange(0, 6) =~= "title:"@);
    assert(l0.skip(6) =~= seq![' '] + c.1);
    lemma_trim_after_space(c.1);
    assert(l1.subrange(0, 8) =~= "created:"@);
    assert(l1.skip(8) =~= seq![' '] + c.2);
    lemma_trim_after_space(c.2);
    assert(l1.subrange(0, 6)[0] != "title:"@[0]);
    let base = seq![l0, l1];
    assert(base.drop_last() =~= seq![l0]);
    assert(seq![l0].drop_last() =~= Seq::<Seq<char>>::empty());
    assert(front_fields(Seq::<Seq<char>>::empty()) == (Seq::<char>::empty(), Seq::<char>::empty(), None::<Seq<char>>));
    assert(front_fields(seq![l0]) == front_step(front_fields(Seq::<Seq<char>>::empty()), l0));
    assert(front_fields(seq![l0]) == (c.1, Seq::<char>::empty(), None::<Seq<char>>));
    assert(front_fields(base) == (c.1, c.2, None::<Seq<char>>));
    match c.3 {
        Some(p) => {
            let e = escape_nl(p);
            let l2 = "system: "@ + e;
            lemma_escape_shape(p);
            lemma_trimmed_ends(p);
            lemma_trim_of_ends(e);
            assert(trim(e) == e);
            assert(l2.subrange(0, 7) =~= "system:"@);
            assert(l2.skip(7) =~= seq![' '] + e);
            lemma_trim_after_space(e);
            lemma_unescape_escape(p);
            assert(l2.subrange(0, 6)[0] != "title:"@[0]);
            assert(l2.subrange(0, 8)[0] != "created:"@[0]);
            assert(front_lines(c).drop_last() =~= base);
            assert(front_fields(front_lines(c)) == (c.1, c.2, Some(p)));
        }
        None => {
            assert(front_lines(c) =~= base);
        }
    }
}

/// A conversation's markdown reads back as the same conversation, for
/// every conversation whose fields survive the format (see `round_trips`).
pub proof fn lemma_markdown_round_trip(c: ConvV)
    requires
        round_trips(c),
    ensures
        conv_of_md(c.0, md_of(c)) == (c.0, c.1, c.2, c.3, read_back(c.4)),
{
    reveal_strlit("---\n");
    reveal_strlit("---\n\n");
    let md = md_of(c);
    let fl = front_lines(c);
    let u = unlines(fl);
    lemma_front_lines_shape(c);
    lemma_front_close(c);
    let e = 4 + u.len() - 1;
    // The frontmatter.
    assert(crate::text::starts_with(md, "---\n"@)) by {
        assert(md.subrange(0, 4) =~= "---\n"@);
    }
    let front = md.subrange(4, e);
    assert(split_front(md) == (front, e + 5, true));
    let dl = fl.drop_last();
    lemma_unlines_append(dl, seq![fl.last()]);
    assert(dl + seq![fl.last()] =~= fl);
    lemma_unlines_one(fl.last());
    assert(front =~= unlines(dl) + fl.last());
    assert forall|k: int| 0 <= k < dl.len() implies plain_line(#[trigger] dl[k]) by {
        assert(dl[k] == fl[k]);
    }
    assert(front.subrange(0, 0int + unlines(dl).len()) =~= unlines(dl));
    lemma_lines_unlines(front, 0, dl);
    let i1 = unlines(dl).len() as int;
    assert forall|j: int| i1 <= j < front.len() implies front[j] != '\n' by {
        assert(front[j] == fl.last()[j - i1]);
        assert(fl.last().contains(fl.last()[j - i1]));
    }
    assert(fl[fl.len() - 1].len() > 0);
    lemma_last_line(front, i1);
    assert(front.subrange(i1, front.len() as int) =~= fl.last());
    assert(lines_of(front) =~= fl);
    lemma_front_fields(c);
    // The messages.
    lemma_msgs_lines(c.4);
    let bl = seq![Seq::<char>::empty()] + msgs_lines(c.4);
    lemma_unlines_append(seq![Seq::<char>::empty()], msgs_lines(c.4));
    lemma_unlines_one(Seq::<char>::empty());
    let body = md.skip(e + 5);
    assert(body =~= unlines(bl));
    assert forall|k: int| 0 <= k < bl.len() implies plain_line(#[trigger] bl[k]) by {
        if k > 0 {
            assert(bl[k] == msgs_lines(c.4)[k - 1]);
        }
    }
    assert(body.subrange(0, 0int + unlines(bl).len()) =~= unlines(bl));
    lemma_lines_unlines(body, 0, bl);
    assert(lines_from(body, body.len() as int) =~= Seq::<Seq<char>>::empty());
    assert(lines_of(body) =~= bl);
    lemma_body_run(c.4);
}

/// A message whose markdown reads back: a blank one (which is not written
/// at all), or one whose content, as written without trailing whitespace,
/// round-trips.
pub open spec fn msg_survives(m: MsgV) -> bool {
    trim(m.1).len() > 0 ==> msg_round_trips((m.0, trim_end(m.1), m.2))
}

/// The messages as they are written: blank ones left out, trailing
/// whitespace dropped.
pub open spec fn written_msgs(ms: Seq<MsgV>) -> Seq<MsgV>
    decreases ms.len(),
{
    if ms.len() == 0 {
        Seq::empty()
    } else {
        let m = ms.last();
        if trim(m.1).len() > 0 {
            written_msgs(ms.drop_last()).push((m.0, trim_end(m.1), m.2))
        } else {
            written_msgs(ms.drop_last())
        }
    }
}

/// The messages that come back from a conversation's markdown: blank ones
/// dropped, each content trimmed, in order.
pub open spec fn kept_msgs(ms: Seq<MsgV>) -> Seq<MsgV>
    decreases ms.len(),
{
    if ms.len() == 0 {
        Seq::empty()
    } else {
        let m = ms.last();
        if trim(m.1).len() > 0 {
            kept_msgs(ms.drop_last()).push((m.0, trim(m.1), m.2))
        } else {
            kept_msgs(ms.drop_last())
        }
    }
}

proof fn lemma_written_msgs(ms: Seq<MsgV>)
    requires
        forall|k: int| 0 <= k < ms.len() ==> msg_survives(#[trigger] ms[k]),
    ensures
        msgs_md(written_msgs(ms)) == msgs_md(ms),
        forall|k: int| 0 <= k < written_msgs(ms).len() ==> msg_round_trips(#[trigger] written_msgs(ms)[k]),
        read_back(written_msgs(ms)) == kept_msgs(ms),
    decreases ms.len(),
{
    if ms.len() == 0 {
        assert(read_back(Seq::<MsgV>::empty()) =~= Seq::<MsgV>::empty());
    } else {
        let init = ms.drop_last();
        let m = ms.last();
        assert forall|k: int| 0 <= k < init.len() implies msg_survives(#[trigger] init[k]) by {
            assert(init[k] == ms[k]);
        }
        lemma_written_msgs(init);
        assert(msg_survives(ms[ms.len() - 1]));
        let wi = written_msgs(init);
        if trim(m.1).len() > 0 {
            let w = (m.0, trim_end(m.1), m.2);
            let wm = wi.push(w);
            assert(wm.drop_last() =~= wi);
            lemma_trim_of_trim_end(m.1);
            lemma_trim_end_idem(m.1);
            assert(msg_md(w) == msg_md(m));
            assert(msgs_md(wm) == msgs_md(wi) + msg_md(w));
            assert forall|k: int| 0 <= k < wm.len() implies msg_round_trips(#[trigger] wm[k]) by {
                if k < wi.len() {
                    assert(wm[k] == wi[k]);
                }
            }
            assert(read_back(wm) =~= read_back(wi).push((m.0, trim(m.1), m.2)));
        } else {
            assert(msg_md(m) =~= Seq::<char>::empty());
            assert(msgs_md(ms) =~= msgs_md(init));
        }
    }
}

/// A conversation's markdown reads back as the same conversation, with
/// blank messages dropped and every other message's content trimmed, for
/// every conversation whose frontmatter survives the format and whose
/// messages do (see `front_round_trips` and `msg_survives`).
pub proof fn lemma_markdown_keeps_conversation(c: ConvV)
    requires
        front_round_trips(c),
        forall|k: int| 0 <= k < c.4.len() ==> msg_survives(#[trigger] c.4[k]),
    ensures
        conv_of_md(c.0, md_of(c)) == (c.0, c.1, c.2, c.3, kept_msgs(c.4)),
{
    lemma_written_msgs(c.4);
    let w = (c.0, c.1, c.2, c.3, written_msgs(c.4));
    assert(md_of(w) == md_of(c));
    lemma_markdown_round_trip(w);
}

/// A message as a user would check it before saving: a role that is not
/// blank, and a role and timestamp that are trimmed, on one line, and free
/// of ` t:` and `-->`; content without carriage returns, none of whose
/// lines (once trailing whitespace is dropped, as the file keeps it) is a
/// message marker `<!--m:...-->`.
pub open spec fn msg_saved_plainly(m: MsgV) -> bool {
    &&& m.0.len() > 0 && trim(m.0) == m.0 && !m.0.contains('\n') && !contains(m.0, " t:"@) && !contains(m.0, "-->"@)
    &&& trim(m.2) == m.2 && !m.2.contains('\n') && !contains(m.2, " t:"@) && !contains(m.2, "-->"@)
    &&& !m.1.contains('\r')
    &&& forall|k: int| 0 <= k < split_nl(trim_end(m.1)).len() ==> !is_marker(#[trigger] split_nl(trim_end(m.1))[k])
}

/// A conversation as a user would check it before saving: a title that is
/// not blank, trimmed and on one line; a creation time trimmed and on one
/// line; a system prompt, if any, not blank, trimmed, without carriage
/// returns and without `\` followed by `n`; and messages each saved plainly.
pub open spec fn saved_plainly(c: ConvV) -> bool {
    &&& c.1.len() > 0 && trim(c.1) == c.1 && !c.1.contains('\n')
    &&& trim(c.2) == c.2 && !c.2.contains('\n')
    &&& match c.3 {
        Some(p) => p.len() > 0 && trim(p) == p && !p.contains('\r') && no_escape_pair(p),
        None => true,
    }
    &&& forall|k: int| 0 <= k < c.4.len() ==> msg_saved_plainly(#[trigger] c.4[k])
}

proof fn lemma_plain_msg_survives(m: MsgV)
    requires
        msg_saved_plainly(m),
    ensures
        msg_survives(m),
{
    if trim(m.1).len() > 0 {
        let w = trim_end(m.1);
        lemma_trim_of_trim_end(m.1);
        lemma_trim_end_idem(m.1);
        crate::web::lemma_trim_lacks_end(m.1, '\r');
        assert(no_crlf(w)) by {
            assert forall|j: int| 0 <= j < w.len() - 1 implies !(w[j] == '\r' && #[trigger] w[j + 1] == '\n') by {
                if w[j] == '\r' {
                    assert(w.contains(w[j]));
                }
            }
        }
    }
}

/// A conversation saved plainly reads back from its markdown as the same
/// conversation: same title, creation time and system prompt, and the same
/// messages in order, blank ones dropped and each content trimmed.
pub proof fn lemma_saved_conversation_reads_back(c: ConvV)
    requires
        saved_plainly(c),
    ensures
        conv_of_md(c.0, md_of(c)) == (c.0, c.1, c.2, c.3, kept_msgs(c.4)),
{
    assert forall|k: int| 0 <= k < c.4.len() implies msg_survives(#[trigger] c.4[k]) by {
        lemma_plain_msg_survives(c.4[k]);
    }
    lemma_markdown_keeps_conversation(c);
}

// ── Where the files live ───────────────────────────────────────────────────

/// What `Path::join` gives for `base` and `rest` (a relative `rest` goes
/// under `base`; an absolute one replaces it).
pub uninterp spec fn joined_path(base: Seq<char>, rest: Seq<char>) -> Seq<char>;

/// `std::path::Path::join`, with the result read back as text.
#[verifier::external_body]
pub(crate) fn path_join(base: &str, rest: &str) -> (r: String)
    ensures
        r@ == joined_path(base@, rest@),
{
    std::path::Path::new(base).join(rest).to_string_lossy().into_owned()
}

/// `dirs::home_dir`: the user's home directory, read from the environment,
/// as text. Nothing is promised of it: it depends on the machine.
#[verifier::external_body]
fn home_dir() -> (r: Option<String>) {
    dirs::home_dir().map(|h| h.to_string_lossy().into_owned())
}

/// A path with a leading `~/` put under the home directory (when it is
/// known).
pub open spec fn tilde_expanded(p: Seq<char>, home: Option<Seq<char>>) -> Seq<char> {
    match home {
        Some(h) => if starts_with(p, "~/"@) { joined_path(h, p.skip(2)) } else { p },
        None => p,
    }
}

pub fn expand_tilde(p: &str, home: Option<&str>) -> (r: String)
    ensures
        r@ == tilde_expanded(p@, match home { Some(h) => Some(h@), None => None }),
{
    let v = chars_of(p);
    match home {
        Some(h) => {
            if has_prefix(&v, "~/") {
                proof {
                    reveal_strlit("~/");
                }
                let rest = string_of_range(&v, 2, v.len());
                assert(v@.subrange(2, v@.len() as int) =~= v@.skip(2));
                path_join(h, rest.as_str())
            } else {
                p.to_string()
            }
        }
        None => p.to_string(),
    }
}

/// The override from Settings, trimmed, when it is set and not blank.
pub open spec fn root_override(dir_override: Option<Seq<char>>) -> Option<Seq<char>> {
    match dir_override {
        Some(d) => if trim(d).len() > 0 { Some(trim(d)) } else { None },
        None => None,
    }
}

/// The memory root: the Settings override (with `~/` expanded) or, when
/// there is none, `data_dir`. Which home directory the machine reports is
/// not known here: an override that starts with `~/` gives either itself or
/// that path under some directory.
pub fn root(dir_override: &Option<String>, data_dir: &str) -> (r: String)
    ensures
        root_override(opt_v(*dir_override)) is None ==> r@ == data_dir@,
        root_override(opt_v(*dir_override)) matches Some(d) ==> (
            !starts_with(d, "~/"@) ==> r@ == d)
            && (starts_with(d, "~/"@) ==> r@ == d || exists|h: Seq<char>| r@ == joined_path(h, d.skip(2))),
{
    match dir_override {
        Some(d) => {
            let t = trimmed(d.as_str());
            if t.as_str().is_empty() {
                return data_dir.to_string();
            }
            let home = home_dir();
            match home {
                Some(h) => {
                    let r = expand_tilde(t.as_str(), Some(h.as_str()));
                    proof {
                        if starts_with(t@, "~/"@) {
                            assert(r@ == joined_path(h@, t@.skip(2)));
                        }
                    }
                    r
                }
                None => expand_tilde(t.as_str(), None),
            }
        }
        None => data_dir.to_string(),
    }
}


/// Where saved conversations live: `conversations` under the memory root.
pub fn conversations_dir(dir_override: &Option<String>, data_dir: &str) -> (r: String)
    ensures
        root_override(opt_v(*dir_override)) is None ==> r@ == joined_path(data_dir@, "conversations"@),
        root_override(opt_v(*dir_override)) matches Some(d)
            ==> (!starts_with(d, "~/"@) ==> r@ == joined_path(d, "conversations"@)),
{
    let base = root(dir_override, data_dir);
    path_join(base.as_str(), "conversations")
}

/// The long-term memory file: `memory.md` under the memory root.
pub fn memory_path(dir_override: &Option<String>, data_dir: &str) -> (r: String)
    ensures
        root_override(opt_v(*dir_override)) is None ==> r@ == joined_path(data_dir@, "memory.md"@),
        root_override(opt_v(*dir_override)) matches Some(d)
            ==> (!starts_with(d, "~/"@) ==> r@ == joined_path(d, "memory.md"@)),
{
    let base = root(dir_override, data_dir);
    path_join(base.as_str(), "memory.md")
}

} // verus!
