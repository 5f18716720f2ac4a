use myman::entities::{
    build_fts_query, normalize_filter_tag, normalize_tags, optional_trimmed, pagination,
    parse_tags, quote_term, required_title, DEFAULT_PAGE_LIMIT, MAX_PAGE_LIMIT,
};

fn strings(items: &[&str]) -> Vec<String> {
    items.iter().map(|s| (*s).to_owned()).collect()
}

#[test]
fn normalizes_a_tag_by_trimming_and_lowercasing() {
    assert_eq!(normalize_filter_tag(" WoRk "), Some("work".to_owned()));
    assert_eq!(normalize_filter_tag("ÉTÉ"), Some("été".to_owned()));
    assert_eq!(normalize_filter_tag("   "), None);
    assert_eq!(normalize_filter_tag(""), None);
}

#[test]
fn normalizes_tag_lists_sorted_without_repeats_or_blanks() {
    assert_eq!(normalize_tags(&strings(&[" Work ", "work", "Home", "  "])), strings(&["home", "work"]));
    assert_eq!(normalize_tags(&strings(&["b", "a", "c", "a"])), strings(&["a", "b", "c"]));
    assert!(normalize_tags(&Vec::new()).is_empty());
}

#[test]
fn stored_tags_do_not_depend_on_order_case_or_repeats() {
    let a = normalize_tags(&strings(&["Beta", "alpha", "ALPHA "]));
    let b = normalize_tags(&strings(&[" alpha", "beta", "beta"]));
    assert_eq!(a, b);
}

#[test]
fn parses_listed_tags_sorted_and_trimmed() {
    assert_eq!(parse_tags(Some("b, a,,c ".to_owned())), strings(&["a", "b", "c"]));
    assert_eq!(parse_tags(Some(String::new())), Vec::<String>::new());
    assert_eq!(parse_tags(None), Vec::<String>::new());
    assert_eq!(parse_tags(Some("x,x".to_owned())), strings(&["x", "x"]));
}

#[test]
fn reads_back_tags_joined_by_commas() {
    let tags = strings(&["home", "project", "work"]);
    assert_eq!(parse_tags(Some(tags.join(","))), tags);
    assert_eq!(parse_tags(Some("work,home,project".to_owned())), tags);
}

#[test]
fn builds_prefix_terms_joined_by_the_operator() {
    assert_eq!(build_fts_query("alpha beta", " AND "), "\"alpha\"* AND \"beta\"*");
    assert_eq!(build_fts_query("  alpha   beta ", " OR "), "\"alpha\"* OR \"beta\"*");
    assert_eq!(build_fts_query("one", " AND "), "\"one\"*");
    assert_eq!(build_fts_query("   ", " AND "), "");
}

#[test]
fn doubles_quotes_inside_search_terms() {
    assert_eq!(quote_term("say\"hi"), "\"say\"\"hi\"*");
    assert_eq!(build_fts_query("\"x\"", " OR "), "\"\"\"x\"\"\"*");
}

#[test]
fn pages_default_and_stay_within_bounds() {
    assert_eq!(pagination(None, None), (DEFAULT_PAGE_LIMIT, 0));
    assert_eq!(pagination(Some(0), None), (1, 0));
    assert_eq!(pagination(Some(500), Some(9)), (MAX_PAGE_LIMIT, 9));
    assert_eq!(pagination(Some(7), Some(3)), (7, 3));
    assert_eq!(pagination(Some(200), None), (200, 0));
}

#[test]
fn requires_a_title_that_is_not_blank() {
    assert_eq!(required_title("  Note  "), Ok("Note".to_owned()));
    assert_eq!(required_title(" \t "), Err("Title is required".to_owned()));
}

#[test]
fn drops_blank_optional_texts() {
    assert_eq!(optional_trimmed(&Some("  body ".to_owned())), Some("body".to_owned()));
    assert_eq!(optional_trimmed(&Some("   ".to_owned())), None);
    assert_eq!(optional_trimmed(&None), None);
}
