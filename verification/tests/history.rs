use llamachat::history::newest_first_order;

fn keys(v: &[&str]) -> Vec<String> {
    v.iter().map(|s| s.to_string()).collect()
}

#[test]
fn conversations_list_newest_first_keeping_ties_in_order() {
    let created = keys(&["2026-01-02T10:00:00Z", "2026-03-01T09:00:00Z", "2026-01-02T10:00:00Z", ""]);
    assert_eq!(newest_first_order(&created), vec![1, 0, 2, 3]);
}

#[test]
fn an_empty_listing_stays_empty() {
    assert!(newest_first_order(&Vec::new()).is_empty());
}

#[test]
fn already_sorted_input_keeps_its_order() {
    let created = keys(&["2026-05-01", "2026-04-01", "2026-03-01"]);
    assert_eq!(newest_first_order(&created), vec![0, 1, 2]);
}
