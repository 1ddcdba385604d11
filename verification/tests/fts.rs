use mirror_store::backend::fts::{fts_request, fts_results};

#[test]
fn tokens_become_prefix_terms() {
    let request = fts_request("  text \u{a0}edi\"tor ", 20).unwrap();
    assert_eq!(request.expression, "\"text\"* \"edi\"\"tor\"*");
    assert_eq!(request.limit, 20);
    assert_eq!(fts_request("\"", 0).unwrap().expression, "\"\"\"\"*");
    assert_eq!(fts_request("one", 1).unwrap().expression, "\"one\"*");
}

#[test]
fn blank_queries_search_nothing() {
    assert_eq!(fts_request("", 5), None);
    assert_eq!(fts_request(" \t\n\u{3000}", 5), None);
}

#[test]
fn limits_are_signed() {
    for limit in [0usize, 7, usize::MAX / 2, usize::MAX / 2 + 1, usize::MAX] {
        assert_eq!(fts_request("x", limit).unwrap().limit, limit as i64);
    }
    assert_eq!(fts_request("x", usize::MAX).unwrap().limit, -1);
}

#[test]
fn unreadable_rows_are_left_out() {
    let hit = |a: &str, b: &str| (a.to_string(), b.to_string());
    assert_eq!(
        fts_results(vec![None, Some(hit("flatpak", "a")), None, Some(hit("nix", "b"))]),
        vec![hit("flatpak", "a"), hit("nix", "b")]
    );
    assert!(fts_results(vec![None]).is_empty());
}
