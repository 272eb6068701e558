use llamachat::memory::{expand_tilde, from_markdown, root, safe_stem, should_save, to_markdown, ConvDto, ConvMsg};

fn msg(role: &str, content: &str, ts: &str) -> ConvMsg {
    ConvMsg { role: role.into(), content: content.into(), timestamp: ts.into() }
}

fn conv() -> ConvDto {
    ConvDto {
        id: "c-1".into(),
        title: "Trip plans".into(),
        created_at: "2026-07-09T10:00:00Z".into(),
        system_prompt: Some("Be brief.\nUse lists.".into()),
        messages: vec![
            msg("user", "Where should we go?", "10:00"),
            msg("assistant", "Lisbon.\n\nIt is sunny.", "10:01"),
        ],
    }
}

#[test]
fn markdown_reads_back_as_the_same_conversation() {
    let c = conv();
    let md = to_markdown(&c);
    assert!(md.starts_with("---\ntitle: Trip plans\ncreated: 2026-07-09T10:00:00Z\nsystem: Be brief.\\nUse lists.\n---\n\n"));
    assert!(md.contains("<!--m:user t:10:00-->\nWhere should we go?\n\n"));
    let back = from_markdown("c-1", &md);
    assert_eq!(back.title, c.title);
    assert_eq!(back.created_at, c.created_at);
    assert_eq!(back.system_prompt, c.system_prompt);
    assert_eq!(back.messages.len(), 2);
    for (a, b) in back.messages.iter().zip(c.messages.iter()) {
        assert_eq!((&a.role, &a.content, &a.timestamp), (&b.role, &b.content, &b.timestamp));
    }
}

#[test]
fn blank_messages_are_not_written_and_titles_fall_back() {
    let mut c = conv();
    c.title = "".into();
    c.system_prompt = Some("   ".into());
    c.messages.insert(0, msg("user", "   ", "09:59"));
    let md = to_markdown(&c);
    assert!(!md.contains("system:"));
    assert!(!md.contains("09:59"));
    let back = from_markdown("x", &md);
    assert_eq!(back.title, "Where should we go?");
    assert_eq!(back.system_prompt, None);
    assert_eq!(back.messages.len(), 2);
}

#[test]
fn plain_text_without_frontmatter_still_reads() {
    let back = from_markdown("id", "just notes\n<!--m:user-->\nhello\n");
    assert_eq!(back.title, "hello");
    assert_eq!(back.created_at, "");
    assert_eq!(back.messages.len(), 1);
    assert_eq!(back.messages[0].role, "user");
    assert_eq!(back.messages[0].timestamp, "");
    let empty = from_markdown("id", "");
    assert_eq!(empty.title, "Conversation");
    assert!(empty.messages.is_empty());
}

#[test]
fn ids_become_safe_file_stems() {
    assert_eq!(safe_stem("abc-1_2"), "abc-1_2");
    assert_eq!(safe_stem("../evil id"), "___evil_id");
    assert_eq!(safe_stem("é"), "_");
}

#[test]
fn empty_conversations_are_not_saved() {
    let mut c = conv();
    assert!(should_save(&c));
    c.messages = vec![msg("user", " \n ", "t")];
    assert!(!should_save(&c));
    c.messages.clear();
    assert!(!should_save(&c));
}

#[test]
fn the_root_prefers_a_set_override() {
    assert_eq!(root(&None, "/data"), "/data");
    assert_eq!(root(&Some("   ".into()), "/data"), "/data");
    assert_eq!(root(&Some(" /srv/notes ".into()), "/data"), "/srv/notes");
    assert_eq!(expand_tilde("~/notes", Some("/home/me")), "/home/me/notes");
    assert_eq!(expand_tilde("~/notes", None), "~/notes");
    assert_eq!(expand_tilde("/abs", Some("/home/me")), "/abs");
}

#[test]
fn blank_messages_drop_and_contents_trim_on_the_way_back() {
    let mut c = conv();
    c.messages = vec![
        msg("user", "  \n  indented question?  \n\n", "10:00"),
        msg("assistant", " \t\n ", "10:01"),
        msg("assistant", "answer\n", "10:02"),
    ];
    let back = from_markdown("c-1", &to_markdown(&c));
    assert_eq!(back.title, c.title);
    assert_eq!(back.messages.len(), 2);
    assert_eq!((back.messages[0].role.as_str(), back.messages[0].content.as_str(), back.messages[0].timestamp.as_str()), ("user", "indented question?", "10:00"));
    assert_eq!((back.messages[1].role.as_str(), back.messages[1].content.as_str(), back.messages[1].timestamp.as_str()), ("assistant", "answer", "10:02"));
}
