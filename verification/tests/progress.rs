use llamachat::progress::ProgressSplitter;

fn split_all(bytes: &[u8]) -> Vec<String> {
    let mut s = ProgressSplitter::new();
    let mut out = Vec::new();
    for &b in bytes {
        if let Some(line) = s.push(b) {
            out.push(String::from_utf8(line).unwrap());
        }
    }
    if let Some(line) = s.finish() {
        out.push(String::from_utf8(line).unwrap());
    }
    out
}

#[test]
fn carriage_returns_end_lines_too() {
    assert_eq!(
        split_all(b"pulling 10%\rpulling 20%\r\n\ndone"),
        vec!["pulling 10%", "pulling 20%", "done"]
    );
}

#[test]
fn empty_lines_are_dropped() {
    assert!(split_all(b"\r\n\n\r").is_empty());
    assert!(split_all(b"").is_empty());
}

#[test]
fn finish_flushes_the_pending_line_once() {
    let mut s = ProgressSplitter::new();
    assert_eq!(s.push(b'o'), None);
    assert_eq!(s.push(b'k'), None);
    assert_eq!(s.finish(), Some(b"ok".to_vec()));
    assert_eq!(s.finish(), None);
    assert_eq!(s.push(b'\n'), None);
}

#[test]
fn lines_put_back_together_are_the_stream_without_breaks() {
    let stream = b"a\r\rbc\n\nd\r";
    let joined: String = split_all(stream).concat();
    let kept: String = stream.iter().filter(|&&b| b != b'\n' && b != b'\r').map(|&b| b as char).collect();
    assert_eq!(joined, kept);
}
