use shortlink::{
    decimal_text, generate_id, id_from_number, internal_error, link_from_reply, redirect_from_lookup,
    statistics_from_reply, validate_target, ApiError, GatewayError, Link, LinkStore, LinkTarget,
};

fn target(url: &str) -> LinkTarget {
    LinkTarget { target_url: url.to_string() }
}

fn text(s: &str) -> Option<String> {
    Some(s.to_string())
}

#[test]
fn create_redirect_and_count_one_click() {
    let mut store = LinkStore::new();
    let id = generate_id();
    let link = store.create_link(&target("https://example.com/a"), id.clone()).unwrap();
    assert_eq!(link.id, id);
    assert_eq!(link.target_url, "https://example.com/a");

    let redirect = store.redirect(&id, None, text("test-agent")).unwrap();
    assert_eq!(redirect.status_code(), 307);
    assert_eq!(redirect.location, "https://example.com/a");
    assert_eq!(
        redirect.cache_control,
        "public, max-age=300, s-maxage=300, stale-while-revalidate=300, stale-if-error=300"
    );

    let rows = store.get_link_statistic(&id);
    assert_eq!(rows.len(), 1);
    assert_eq!(rows[0].amount, Some(1));
    assert_eq!(rows[0].referer, None);
    assert_eq!(rows[0].user_agent, text("test-agent"));
}

#[test]
fn create_stores_the_normalized_url() {
    let mut store = LinkStore::new();
    let link = store.create_link(&target("HTTPS://Example.COM"), "abc".to_string()).unwrap();
    assert_eq!(link.target_url, "https://example.com/");
    let redirect = store.redirect(&"abc".to_string(), None, None).unwrap();
    assert_eq!(redirect.location, "https://example.com/");
}

#[test]
fn malformed_url_is_a_conflict_and_stores_nothing() {
    let mut store = LinkStore::new();
    let err = store.create_link(&target("not a url"), "abc".to_string()).unwrap_err();
    assert!(matches!(err, ApiError::MalformedUrl));
    assert_eq!(err.status_code(), 409);
    assert_eq!(err.message(), "url malformed");
    let missing = store.redirect(&"abc".to_string(), None, None).unwrap_err();
    assert_eq!(missing.status_code(), 404);
}

#[test]
fn relative_url_is_malformed() {
    let err = validate_target(&target("/relative/path")).unwrap_err();
    assert!(matches!(err, ApiError::MalformedUrl));
}

#[test]
fn update_with_malformed_url_keeps_the_old_target() {
    let mut store = LinkStore::new();
    store.create_link(&target("https://example.com/a"), "x".to_string()).unwrap();
    let err = store.update_link(&"x".to_string(), &target("::::")).unwrap_err();
    assert_eq!(err.status_code(), 409);
    let redirect = store.redirect(&"x".to_string(), None, None).unwrap();
    assert_eq!(redirect.location, "https://example.com/a");
}

#[test]
fn update_changes_the_redirect_target() {
    let mut store = LinkStore::new();
    store.create_link(&target("https://example.com/a"), "x".to_string()).unwrap();
    let updated = store.update_link(&"x".to_string(), &target("https://example.org/b")).unwrap();
    assert_eq!(updated.id, "x");
    assert_eq!(updated.target_url, "https://example.org/b");
    let redirect = store.redirect(&"x".to_string(), None, None).unwrap();
    assert_eq!(redirect.location, "https://example.org/b");
}

#[test]
fn update_of_missing_link_is_a_server_error() {
    let mut store = LinkStore::new();
    let err = store.update_link(&"nope".to_string(), &target("https://example.org/")).unwrap_err();
    assert_eq!(err.status_code(), 500);
    assert_eq!(err.message(), "no rows returned by a query that expected to return at least one row");
}

#[test]
fn taken_identifier_is_a_server_error() {
    let mut store = LinkStore::new();
    store.create_link(&target("https://example.com/a"), "dup".to_string()).unwrap();
    let err = store.create_link(&target("https://example.com/b"), "dup".to_string()).unwrap_err();
    assert!(matches!(err, ApiError::Store(_)));
    assert_eq!(err.status_code(), 500);
    let redirect = store.redirect(&"dup".to_string(), None, None).unwrap();
    assert_eq!(redirect.location, "https://example.com/a");
}

#[test]
fn unknown_id_is_not_found_and_records_nothing() {
    let mut store = LinkStore::new();
    store.create_link(&target("https://example.com/a"), "known".to_string()).unwrap();
    let err = store.redirect(&"unknown".to_string(), None, text("agent")).unwrap_err();
    assert!(matches!(err, ApiError::NotFound));
    assert_eq!(err.status_code(), 404);
    assert_eq!(err.message(), "Not found");
    assert!(store.get_link_statistic(&"unknown".to_string()).is_empty());
}

#[test]
fn distinct_pairs_are_counted_once_each() {
    let mut store = LinkStore::new();
    store.create_link(&target("https://example.com/a"), "l".to_string()).unwrap();
    let id = "l".to_string();
    store.redirect(&id, text("r1"), text("a1")).unwrap();
    store.redirect(&id, text("r1"), text("a2")).unwrap();
    store.redirect(&id, None, text("a1")).unwrap();
    let rows = store.get_link_statistic(&id);
    assert_eq!(rows.len(), 3);
    for row in &rows {
        assert_eq!(row.amount, Some(1));
    }
    assert_eq!(rows[0].referer, text("r1"));
    assert_eq!(rows[0].user_agent, text("a1"));
    assert_eq!(rows[1].user_agent, text("a2"));
    assert_eq!(rows[2].referer, None);
}

#[test]
fn repeated_pair_is_counted_each_time() {
    let mut store = LinkStore::new();
    store.create_link(&target("https://example.com/a"), "l".to_string()).unwrap();
    store.create_link(&target("https://example.com/b"), "m".to_string()).unwrap();
    let id = "l".to_string();
    for _ in 0..4 {
        store.redirect(&id, text("r"), text("a")).unwrap();
    }
    store.redirect(&"m".to_string(), text("r"), text("a")).unwrap();
    let rows = store.get_link_statistic(&id);
    assert_eq!(rows.len(), 1);
    assert_eq!(rows[0].amount, Some(4));
    let other = store.get_link_statistic(&"m".to_string());
    assert_eq!(other.len(), 1);
    assert_eq!(other[0].amount, Some(1));
}

#[test]
fn link_without_clicks_has_empty_statistics() {
    let mut store = LinkStore::new();
    store.create_link(&target("https://example.com/a"), "quiet".to_string()).unwrap();
    assert!(store.get_link_statistic(&"quiet".to_string()).is_empty());
    assert!(LinkStore::new().get_link_statistic(&"never".to_string()).is_empty());
}

#[test]
fn identifiers_encode_decimal_digits() {
    assert_eq!(decimal_text(0), b"0".to_vec());
    assert_eq!(decimal_text(4294967295), b"4294967295".to_vec());
    assert_eq!(id_from_number(0), "MA");
    assert_eq!(id_from_number(123), "MTIz");
    assert_eq!(id_from_number(4294967294), "NDI5NDk2NzI5NA");
}

#[test]
fn generated_identifiers_are_url_safe() {
    for _ in 0..50 {
        let id = generate_id();
        assert!(!id.is_empty());
        assert!(id.chars().all(|c| c.is_ascii_alphanumeric() || c == '-' || c == '_'));
    }
}

#[test]
fn store_failures_are_server_errors() {
    let timeout = internal_error(GatewayError::Timeout);
    assert!(matches!(timeout, ApiError::Timeout));
    assert_eq!(timeout.status_code(), 500);
    assert_eq!(timeout.message(), "deadline has elapsed");
    let store = internal_error(GatewayError::Store("connection refused".to_string()));
    assert_eq!(store.status_code(), 500);
    assert_eq!(store.message(), "connection refused");
}

#[test]
fn lookup_results_decide_the_redirect() {
    let found = Link { id: "a".to_string(), target_url: "https://example.com/".to_string() };
    let ok = redirect_from_lookup(Ok(Some(found))).unwrap();
    assert_eq!(ok.location, "https://example.com/");
    let missing = redirect_from_lookup(Ok(None)).unwrap_err();
    assert_eq!(missing.status_code(), 404);
    let failed = redirect_from_lookup(Err(GatewayError::Timeout)).unwrap_err();
    assert_eq!(failed.status_code(), 500);
}

#[test]
fn replies_decide_link_and_statistics_answers() {
    let link = Link { id: "a".to_string(), target_url: "https://example.com/".to_string() };
    assert_eq!(link_from_reply(Ok(link)).unwrap().id, "a");
    let err = link_from_reply(Err(GatewayError::NoRows)).unwrap_err();
    assert_eq!(err.status_code(), 500);
    assert!(statistics_from_reply(Ok(Vec::new())).unwrap().is_empty());
    let err = statistics_from_reply(Err(GatewayError::Store("boom".to_string()))).unwrap_err();
    assert_eq!(err.message(), "boom");
}

#[test]
fn malformed_url_is_refused_before_the_link_is_looked_up() {
    let mut store = LinkStore::new();
    let err = store.update_link(&"missing".to_string(), &target("no scheme here")).unwrap_err();
    assert_eq!(err.status_code(), 409);
}

#[test]
fn clicks_on_other_links_are_not_counted() {
    let mut store = LinkStore::new();
    store.create_link(&target("https://example.com/a"), "a".to_string()).unwrap();
    store.create_link(&target("https://example.com/b"), "b".to_string()).unwrap();
    store.redirect(&"b".to_string(), None, None).unwrap();
    store.redirect(&"b".to_string(), None, None).unwrap();
    assert!(store.get_link_statistic(&"a".to_string()).is_empty());
    let rows = store.get_link_statistic(&"b".to_string());
    assert_eq!(rows.len(), 1);
    assert_eq!(rows[0].amount, Some(2));
    assert_eq!(rows[0].referer, None);
    assert_eq!(rows[0].user_agent, None);
}
