use context7_cli::{apply_limit, sort_search_results, SearchResult, SortField};

fn create_test_result(
    id: &str,
    stars: Option<i64>,
    total_pages: Option<i64>,
    total_snippets: Option<i64>,
    total_tokens: Option<i64>,
    trust_score: Option<f64>,
) -> SearchResult {
    SearchResult {
        id: id.to_string(),
        branch: None,
        description: None,
        last_update_date: None,
        stars,
        state: None,
        title: None,
        total_pages,
        total_snippets,
        total_tokens,
        trust_score_bits: trust_score.map(f64::to_bits),
        versions: None,
    }
}

fn ids(results: &[SearchResult]) -> Vec<&str> {
    results.iter().map(|r| r.id.as_str()).collect()
}

#[test]
fn test_sort_field_from_str_valid() {
    assert_eq!(SortField::from_str("stars").unwrap(), SortField::Stars);
    assert_eq!(
        SortField::from_str("totalPages").unwrap(),
        SortField::TotalPages
    );
    assert_eq!(
        SortField::from_str("totalSnippets").unwrap(),
        SortField::TotalSnippets
    );
    assert_eq!(
        SortField::from_str("totalTokens").unwrap(),
        SortField::TotalTokens
    );
    assert_eq!(
        SortField::from_str("trustScore").unwrap(),
        SortField::TrustScore
    );
}

#[test]
fn test_sort_field_from_str_invalid() {
    let result = SortField::from_str("invalid");
    assert!(result.is_err());
    assert!(result
        .unwrap_err()
        .message()
        .contains("Invalid sort field"));
}

#[test]
fn sort_field_parse_rejects_popularity_and_lists_options() {
    assert!(SortField::from_str("trustScore").is_ok());
    let message = SortField::from_str("popularity").unwrap_err().message();
    assert!(message.contains("Invalid sort field"));
    assert_eq!(
        message,
        "Invalid sort field 'popularity'. Valid options are: stars, totalPages, totalSnippets, totalTokens, trustScore"
    );
}

#[test]
fn sort_field_parse_is_case_sensitive() {
    assert!(SortField::from_str("Stars").is_err());
    assert!(SortField::from_str("").is_err());
    assert!(SortField::from_str("stars ").is_err());
}

#[test]
fn test_sort_by_stars_descending() {
    let results = vec![
        create_test_result("low", Some(10), None, None, None, None),
        create_test_result("high", Some(100), None, None, None, None),
        create_test_result("medium", Some(50), None, None, None, None),
    ];

    let sorted = sort_search_results(results, SortField::Stars);

    assert_eq!(sorted[0].id, "high");
    assert_eq!(sorted[1].id, "medium");
    assert_eq!(sorted[2].id, "low");
}

#[test]
fn test_sort_by_total_pages_descending() {
    let results = vec![
        create_test_result("low", None, Some(5), None, None, None),
        create_test_result("high", None, Some(100), None, None, None),
        create_test_result("medium", None, Some(50), None, None, None),
    ];

    let sorted = sort_search_results(results, SortField::TotalPages);

    assert_eq!(sorted[0].id, "high");
    assert_eq!(sorted[1].id, "medium");
    assert_eq!(sorted[2].id, "low");
}

#[test]
fn test_sort_by_total_snippets_descending() {
    let results = vec![
        create_test_result("low", None, None, Some(10), None, None),
        create_test_result("high", None, None, Some(200), None, None),
        create_test_result("medium", None, None, Some(75), None, None),
    ];

    let sorted = sort_search_results(results, SortField::TotalSnippets);

    assert_eq!(sorted[0].id, "high");
    assert_eq!(sorted[1].id, "medium");
    assert_eq!(sorted[2].id, "low");
}

#[test]
fn test_sort_by_total_tokens_descending() {
    let results = vec![
        create_test_result("low", None, None, None, Some(1000), None),
        create_test_result("high", None, None, None, Some(50000), None),
        create_test_result("medium", None, None, None, Some(25000), None),
    ];

    let sorted = sort_search_results(results, SortField::TotalTokens);

    assert_eq!(sorted[0].id, "high");
    assert_eq!(sorted[1].id, "medium");
    assert_eq!(sorted[2].id, "low");
}

#[test]
fn test_sort_by_trust_score_descending() {
    let results = vec![
        create_test_result("low", None, None, None, None, Some(5.0)),
        create_test_result("high", None, None, None, None, Some(9.5)),
        create_test_result("medium", None, None, None, None, Some(7.0)),
    ];

    let sorted = sort_search_results(results, SortField::TrustScore);

    assert_eq!(sorted[0].id, "high");
    assert_eq!(sorted[1].id, "medium");
    assert_eq!(sorted[2].id, "low");
}

#[test]
fn test_sort_handles_none_values_for_stars() {
    let results = vec![
        create_test_result("none", None, None, None, None, None),
        create_test_result("some", Some(50), None, None, None, None),
        create_test_result("also_none", None, None, None, None, None),
    ];

    let sorted = sort_search_results(results, SortField::Stars);

    // The one with a value should be first
    assert_eq!(sorted[0].id, "some");
    // The Nones should maintain their relative order (stable sort)
    assert!(sorted[1].id == "none" || sorted[1].id == "also_none");
}

#[test]
fn test_sort_handles_none_values_for_trust_score() {
    let results = vec![
        create_test_result("none", None, None, None, None, None),
        create_test_result("some", None, None, None, None, Some(7.5)),
    ];

    let sorted = sort_search_results(results, SortField::TrustScore);

    assert_eq!(sorted[0].id, "some");
    assert_eq!(sorted[1].id, "none");
}

#[test]
fn test_sort_empty_list() {
    let results: Vec<SearchResult> = vec![];
    let sorted = sort_search_results(results, SortField::Stars);
    assert_eq!(sorted.len(), 0);
}

#[test]
fn test_sort_single_item() {
    let results = vec![create_test_result("only", Some(42), None, None, None, None)];
    let sorted = sort_search_results(results, SortField::Stars);
    assert_eq!(sorted.len(), 1);
    assert_eq!(sorted[0].id, "only");
}

#[test]
fn sort_by_stars_puts_absent_last_in_input_order() {
    let results = vec![
        create_test_result("a", Some(10), None, None, None, None),
        create_test_result("b", None, None, None, None, None),
        create_test_result("c", Some(50), None, None, None, None),
    ];
    let sorted = sort_search_results(results, SortField::Stars);
    assert_eq!(ids(&sorted), vec!["c", "a", "b"]);
}

#[test]
fn sort_keeps_input_order_among_equal_keys() {
    let results = vec![
        create_test_result("x1", Some(5), Some(1), None, None, Some(2.0)),
        create_test_result("y1", Some(9), Some(1), None, None, Some(1.0)),
        create_test_result("x2", Some(5), Some(1), None, None, Some(2.0)),
        create_test_result("y2", Some(9), Some(1), None, None, None),
        create_test_result("x3", Some(5), Some(1), None, None, Some(0.0)),
    ];
    let by_stars = sort_search_results(results.clone(), SortField::Stars);
    assert_eq!(ids(&by_stars), vec!["y1", "y2", "x1", "x2", "x3"]);
    let by_pages = sort_search_results(results.clone(), SortField::TotalPages);
    assert_eq!(ids(&by_pages), vec!["x1", "y1", "x2", "y2", "x3"]);
    let by_score = sort_search_results(results, SortField::TrustScore);
    assert_eq!(ids(&by_score), vec!["x1", "x2", "y1", "y2", "x3"]);
}

#[test]
fn sort_counts_absent_as_zero_against_negative_values() {
    let results = vec![
        create_test_result("neg", Some(-3), None, None, None, Some(-1.5)),
        create_test_result("absent", None, None, None, None, None),
        create_test_result("pos", Some(1), None, None, None, Some(0.25)),
    ];
    let by_stars = sort_search_results(results.clone(), SortField::Stars);
    assert_eq!(ids(&by_stars), vec!["pos", "absent", "neg"]);
    let by_score = sort_search_results(results, SortField::TrustScore);
    assert_eq!(ids(&by_score), vec!["pos", "absent", "neg"]);
}

#[test]
fn sort_treats_both_zeros_as_equal_and_orders_extremes() {
    let results = vec![
        create_test_result("neg_zero", None, None, None, None, Some(-0.0)),
        create_test_result("pos_zero", None, None, None, None, Some(0.0)),
        create_test_result("inf", None, None, None, None, Some(f64::INFINITY)),
        create_test_result("neg_inf", None, None, None, None, Some(f64::NEG_INFINITY)),
        create_test_result("tiny", None, None, None, None, Some(f64::MIN_POSITIVE)),
    ];
    let sorted = sort_search_results(results, SortField::TrustScore);
    assert_eq!(ids(&sorted), vec!["inf", "tiny", "neg_zero", "pos_zero", "neg_inf"]);
}

#[test]
fn sort_does_not_fail_on_nan_trust_scores() {
    let results = vec![
        create_test_result("nan", None, None, None, None, Some(f64::NAN)),
        create_test_result("low", None, None, None, None, Some(1.0)),
        create_test_result("high", None, None, None, None, Some(3.0)),
    ];
    let sorted = sort_search_results(results, SortField::TrustScore);
    assert_eq!(sorted.len(), 3);
    assert_eq!(ids(&sorted), vec!["nan", "high", "low"]);
}

#[test]
fn sort_keeps_extreme_counts() {
    let results = vec![
        create_test_result("min", Some(i64::MIN), None, None, None, None),
        create_test_result("max", Some(i64::MAX), None, None, None, None),
        create_test_result("zero", Some(0), None, None, None, None),
    ];
    let sorted = sort_search_results(results, SortField::Stars);
    assert_eq!(ids(&sorted), vec!["max", "zero", "min"]);
}

#[test]
fn test_apply_limit_truncates_results() {
    let results = vec![
        create_test_result("first", Some(100), None, None, None, None),
        create_test_result("second", Some(90), None, None, None, None),
        create_test_result("third", Some(80), None, None, None, None),
        create_test_result("fourth", Some(70), None, None, None, None),
    ];

    let limited = apply_limit(results, 2);

    assert_eq!(limited.len(), 2);
    assert_eq!(limited[0].id, "first");
    assert_eq!(limited[1].id, "second");
}

#[test]
fn test_apply_limit_larger_than_list() {
    let results = vec![
        create_test_result("first", Some(100), None, None, None, None),
        create_test_result("second", Some(90), None, None, None, None),
    ];

    let limited = apply_limit(results.clone(), 10);

    assert_eq!(limited.len(), 2);
    assert_eq!(limited[0].id, "first");
    assert_eq!(limited[1].id, "second");
}

#[test]
fn test_apply_limit_zero() {
    let results = vec![create_test_result(
        "first",
        Some(100),
        None,
        None,
        None,
        None,
    )];

    let limited = apply_limit(results, 0);

    assert_eq!(limited.len(), 0);
}

#[test]
fn apply_limit_equal_to_length_keeps_all() {
    let results = vec![
        create_test_result("first", Some(1), None, None, None, None),
        create_test_result("second", Some(2), None, None, None, None),
    ];
    let limited = apply_limit(results, 2);
    assert_eq!(ids(&limited), vec!["first", "second"]);
    let none: Vec<SearchResult> = vec![];
    assert_eq!(apply_limit(none, usize::MAX).len(), 0);
}
