use llamachat::render::{fmt_ctx, fmt_gb, fmt_mb, hard_wrap, tail, truncate, wrap_words};

#[test]
fn sizes_read_in_gigabytes() {
    assert_eq!(fmt_gb(8294), "8.1 GB");
    assert_eq!(fmt_gb(1024), "1.0 GB");
    assert_eq!(fmt_gb(0), "0.0 GB");
    // 0.05 GB exactly is a tie: it rounds to even.
    assert_eq!(fmt_gb(1024 * 5 / 100 + 0), format!("{:.1} GB", (1024 * 5 / 100) as f64 / 1024.0));
    assert_eq!(fmt_gb(2560 + 51), format!("{:.1} GB", 2611.0 / 1024.0));
    assert_eq!(fmt_mb(512), "512MB");
    assert_eq!(fmt_mb(48_000), "46.9GB");
}

#[test]
fn context_lengths() {
    assert_eq!(fmt_ctx(32768), "32k");
    assert_eq!(fmt_ctx(8000), "8k");
    assert_eq!(fmt_ctx(1500), "1k");
    assert_eq!(fmt_ctx(512), "512");
}

#[test]
fn text_is_cut_and_wrapped() {
    assert_eq!(truncate("hello", 5), "hello");
    assert_eq!(truncate("hello world", 5), "hell…");
    assert_eq!(truncate("abc", 0), "…");
    assert_eq!(tail("abcdef", 3), "def");
    assert_eq!(tail("ab", 3), "ab");
    assert_eq!(hard_wrap("abcdefg", 3), vec!["abc", "def", "g"]);
    assert_eq!(hard_wrap("", 0), vec![""]);
    assert_eq!(wrap_words("the quick brown fox", 9), vec!["the quick", "brown fox"]);
    assert_eq!(wrap_words("  a  ", 1), vec!["a"]);
    assert!(wrap_words("   ", 10).is_empty());
    assert_eq!(wrap_words("averyveryverylongword x", 4), vec!["averyveryverylongword", "x"]);
}
