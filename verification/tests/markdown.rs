use llamachat::markdown::{inline_tokens, render_md, wrap_spans, Lead, Look, MdLine, Piece};

const PLAIN: Look = Look { bold: false, code: false };
const BOLD: Look = Look { bold: true, code: false };
const CODE: Look = Look { bold: false, code: true };

fn run(s: &str, l: Look) -> Piece {
    Piece::Run(s.to_string(), l)
}

#[test]
fn inline_runs_toggle_on_markers() {
    let t = inline_tokens("plain **bold** and `code`");
    assert_eq!(
        t,
        vec![
            ("plain ".to_string(), PLAIN),
            ("bold".to_string(), BOLD),
            (" and ".to_string(), PLAIN),
            ("code".to_string(), CODE),
        ]
    );
}

#[test]
fn stars_inside_code_are_text() {
    let t = inline_tokens("`a**b`");
    assert_eq!(t, vec![("a**b".to_string(), CODE)]);
}

#[test]
fn bold_code_combines_both_looks() {
    let t = inline_tokens("**`x`**");
    assert_eq!(t, vec![("x".to_string(), Look { bold: true, code: true })]);
}

#[test]
fn markers_alone_make_no_runs() {
    assert!(inline_tokens("****``").is_empty());
    assert!(inline_tokens("").is_empty());
}

#[test]
fn spans_wrap_at_the_width() {
    let lines = wrap_spans(vec![("hello world foo".to_string(), PLAIN)], 11);
    assert_eq!(
        lines,
        vec![
            vec![run("hello", PLAIN), Piece::Gap, run("world", PLAIN)],
            vec![run("foo", PLAIN)],
        ]
    );
}

#[test]
fn spans_keep_looks_across_runs() {
    let lines = wrap_spans(
        vec![("say ".to_string(), PLAIN), ("this".to_string(), BOLD)],
        40,
    );
    assert_eq!(lines, vec![vec![run("say", PLAIN), Piece::Gap, run("this", BOLD)]]);
}

#[test]
fn long_words_are_cut_and_width_is_at_least_four() {
    let lines = wrap_spans(vec![("abcdefgh".to_string(), CODE)], 2);
    assert_eq!(lines, vec![vec![run("abcd", CODE)], vec![run("efgh", CODE)]]);
}

#[test]
fn no_runs_give_one_empty_line() {
    assert_eq!(wrap_spans(vec![], 10), vec![Vec::<Piece>::new()]);
}

#[test]
fn markdown_lines_by_kind() {
    let md = render_md("# Title\n- item one\n\n```\ncode here\n```\ntext", 20);
    assert_eq!(
        md,
        vec![
            MdLine::Heading("Title".to_string()),
            MdLine::Text(Lead::Bullet, vec![run("item", PLAIN), Piece::Gap, run("one", PLAIN)]),
            MdLine::Blank,
            MdLine::Code("code here".to_string()),
            MdLine::Text(Lead::Plain, vec![run("text", PLAIN)]),
        ]
    );
}

#[test]
fn bullet_continuations_are_indented() {
    let md = render_md("* aaaa bbbb cccc", 8);
    assert_eq!(
        md,
        vec![
            MdLine::Text(Lead::Bullet, vec![run("aaaa", PLAIN)]),
            MdLine::Text(Lead::Indent, vec![run("bbbb", PLAIN)]),
            MdLine::Text(Lead::Indent, vec![run("cccc", PLAIN)]),
        ]
    );
}

#[test]
fn code_lines_are_hard_wrapped_and_kept_verbatim() {
    let md = render_md("```rust\n  let x = **1**;\n```", 8);
    assert_eq!(
        md,
        vec![
            MdLine::Code("  let ".to_string()),
            MdLine::Code("x = **".to_string()),
            MdLine::Code("1**;".to_string()),
        ]
    );
}

#[test]
fn headings_of_three_levels() {
    let md = render_md("### c\n## b\n# a\n#nope", 20);
    assert_eq!(
        md,
        vec![
            MdLine::Heading("c".to_string()),
            MdLine::Heading("b".to_string()),
            MdLine::Heading("a".to_string()),
            MdLine::Text(Lead::Plain, vec![run("#nope", PLAIN)]),
        ]
    );
}

#[test]
fn runs_put_back_together_are_the_text_without_markers() {
    let text = "a **b** `c**d` e";
    let joined: String = inline_tokens(text).into_iter().map(|(t, _)| t).collect();
    assert_eq!(joined, "a b c**d e");
}

#[test]
fn no_wrapped_line_is_wider_than_the_width() {
    let runs = inline_tokens("the quick brown fox jumps over **the lazy** dog, supercalifragilistic");
    for width in [4usize, 7, 10, 23] {
        for line in wrap_spans(runs.clone(), width) {
            let w: usize = line
                .iter()
                .map(|p| match p {
                    Piece::Gap => 1,
                    Piece::Run(t, _) => t.chars().count(),
                })
                .sum();
            assert!(w <= width, "{w} > {width}");
        }
    }
}
