use lectara_service::errors::ApiError;
use lectara_service::listing::{
    filter_rows, find_newest, is_newer, rank_items, select_page, take_page, within,
    ListContentParams, DEFAULT_LIMIT, MAX_LIMIT,
};
use lectara_service::models::{ContentItem, Timestamp};
use lectara_service::repositories::MemoryContentRepository;
use lectara_service::routes::{
    add_content, check_list_query, get_content_by_id, list_content, parse_list_query, parse_u32,
    AddContentRequest, ListContentQuery,
};

fn at(secs: i64) -> Timestamp {
    Timestamp::new(secs, 0)
}

fn item(id: i32, secs: i64) -> ContentItem {
    ContentItem {
        id,
        url: format!("https://example.com/item{id}"),
        title: Some(format!("Item {id}")),
        author: None,
        created_at: at(secs),
        body: Some("body".to_string()),
    }
}

fn ids(items: &[ContentItem]) -> Vec<i32> {
    items.iter().map(|i| i.id).collect()
}

fn params(limit: Option<u32>, offset: Option<u32>) -> ListContentParams {
    ListContentParams { limit, offset, since: None, until: None }
}

fn no_query() -> ListContentQuery {
    ListContentQuery { limit: None, offset: None, since: None, until: None }
}

fn store_with(entries: &[(&str, &str, i64)]) -> MemoryContentRepository {
    let mut repo = MemoryContentRepository::new();
    for (url, title, secs) in entries {
        let payload = AddContentRequest {
            url: url.to_string(),
            title: Some(title.to_string()),
            author: None,
            body: None,
        };
        add_content(&mut repo, payload, at(*secs)).unwrap();
    }
    repo
}

fn bad_request(r: Result<ListContentParams, ApiError>) -> String {
    match r {
        Err(ApiError::BadRequest(reason)) => reason,
        other => panic!("expected a bad request, got {:?}", other),
    }
}

#[test]
fn simple_test_list_content_empty_database() {
    let repo = MemoryContentRepository::new();
    let response = list_content(&repo, &no_query()).unwrap();
    assert_eq!(response.items.len(), 0);
    assert_eq!(response.total, 0);
    assert_eq!(response.limit, 50); // default limit
}

#[test]
fn simple_test_get_content_by_id_not_found() {
    let repo = MemoryContentRepository::new();
    let r = get_content_by_id(&repo, 999);
    assert_eq!(r, Err(ApiError::NotFound));
    assert_eq!(r.unwrap_err().status_code(), 404);
}

#[test]
fn simple_test_invalid_query_parameters() {
    let repo = MemoryContentRepository::new();

    // Invalid limit
    let mut query = no_query();
    query.limit = Some("-1".to_string());
    assert_eq!(list_content(&repo, &query).unwrap_err().status_code(), 400);

    // Invalid offset
    let mut query = no_query();
    query.offset = Some("not_a_number".to_string());
    assert_eq!(list_content(&repo, &query).unwrap_err().status_code(), 400);

    // Invalid datetime
    let mut query = no_query();
    query.since = Some("not_a_date".to_string());
    assert_eq!(list_content(&repo, &query).unwrap_err().status_code(), 400);
}

#[test]
fn simple_test_date_range_filtering() {
    // 2024-01-01T10:00:00Z, 2024-01-02T10:00:00Z, 2024-01-03T10:00:00Z
    let repo = store_with(&[
        ("https://example.com/item1", "Item 1", 1704103200),
        ("https://example.com/item2", "Item 2", 1704189600),
        ("https://example.com/item3", "Item 3", 1704276000),
    ]);

    // Test since filter
    let mut query = no_query();
    query.since = Some("2024-01-02T00:00:00Z".to_string());
    let response = list_content(&repo, &query).unwrap();
    assert_eq!(response.items.len(), 2); // Items 2 and 3
    assert_eq!(response.total, 2);

    // Test until filter
    let mut query = no_query();
    query.until = Some("2024-01-02T23:59:59Z".to_string());
    let response = list_content(&repo, &query).unwrap();
    assert_eq!(response.items.len(), 2); // Items 1 and 2

    // Test range filter
    let mut query = no_query();
    query.since = Some("2024-01-02T00:00:00Z".to_string());
    query.until = Some("2024-01-02T23:59:59Z".to_string());
    let response = list_content(&repo, &query).unwrap();
    assert_eq!(response.items.len(), 1); // Only Item 2
    assert_eq!(response.items[0].title, Some("Item 2".to_string()));
    assert_eq!(response.items[0].url, "https://example.com/item2");
}

#[test]
fn get_content_by_id_returns_the_full_item() {
    let repo = store_with(&[
        ("https://example.com/a", "A", 10),
        ("https://example.com/b", "B", 20),
    ]);
    let found = get_content_by_id(&repo, 2).unwrap();
    assert_eq!(found.id, 2);
    assert_eq!(found.url, "https://example.com/b");
    assert_eq!(found.title, Some("B".to_string()));
    assert_eq!(found.created_at, at(20));
    assert_eq!(repo.find_by_id(3), None);
    assert_eq!(repo.find_by_id(0), None);
}

#[test]
fn listing_is_strictly_descending_by_creation_time() {
    let rows = vec![item(1, 300), item(2, 100), item(3, 500), item(4, 200), item(5, 400)];
    let result = select_page(&rows, &params(None, None));
    assert_eq!(ids(&result.items), vec![3, 5, 1, 4, 2]);
    for pair in result.items.windows(2) {
        assert!(!pair[0].created_at.at_or_before(&pair[1].created_at));
    }
    assert_eq!(result.total, 5);
}

#[test]
fn ties_are_broken_by_the_larger_identifier() {
    let rows = vec![item(1, 100), item(2, 100), item(3, 50), item(4, 100)];
    let result = select_page(&rows, &params(None, None));
    assert_eq!(ids(&result.items), vec![4, 2, 1, 3]);
    assert!(is_newer(&item(2, 100), &item(1, 100)));
    assert!(!is_newer(&item(1, 100), &item(2, 100)));
    assert!(is_newer(&item(1, 101), &item(9, 100)));
    assert!(!is_newer(&item(1, 100), &item(1, 100)));
}

#[test]
fn nanoseconds_order_within_a_second() {
    let mut early = item(1, 100);
    early.created_at = Timestamp::new(100, 5);
    let mut late = item(2, 100);
    late.created_at = Timestamp::new(100, 6);
    assert!(is_newer(&late, &early));
    assert!(early.created_at.at_or_before(&late.created_at));
    assert!(!late.created_at.at_or_before(&early.created_at));
    assert!(Timestamp::new(-1, 999_999_999).at_or_before(&Timestamp::new(0, 0)));
    assert_eq!(find_newest(&vec![early.clone(), late.clone(), early.clone()]), 1);
    assert_eq!(find_newest(&vec![late.clone(), late.clone()]), 0);
}

#[test]
fn consecutive_pages_share_no_identifier() {
    let mut rows = vec![];
    for id in 1..=25 {
        rows.push(item(id, 1000 + ((id as i64 * 7) % 11)));
    }
    for limit in [1u32, 3, 10, 12, 25, 40] {
        let first = select_page(&rows, &params(Some(limit), Some(0)));
        let second = select_page(&rows, &params(Some(limit), Some(limit)));
        for a in ids(&first.items) {
            assert!(!ids(&second.items).contains(&a));
        }
        assert_eq!(first.total, 25);
        assert_eq!(second.total, 25);
        let full = select_page(&rows, &params(Some(2 * limit), Some(0)));
        let mut joined = ids(&first.items);
        joined.extend(ids(&second.items));
        assert_eq!(joined, ids(&full.items));
    }
}

#[test]
fn range_filter_returns_exactly_the_items_within_the_inclusive_bounds() {
    let rows: Vec<ContentItem> = (1..=10).map(|id| item(id, id as i64 * 10)).collect();
    let bounded = ListContentParams {
        limit: None,
        offset: None,
        since: Some(at(30)),
        until: Some(at(70)),
    };
    let result = select_page(&rows, &bounded);
    assert_eq!(ids(&result.items), vec![7, 6, 5, 4, 3]);
    assert_eq!(result.total, 5);
    assert_eq!(ids(&filter_rows(&rows, &Some(at(95)), &None)), vec![10]);
    assert_eq!(ids(&filter_rows(&rows, &None, &Some(at(10)))), vec![1]);
    assert_eq!(ids(&filter_rows(&rows, &Some(at(71)), &Some(at(79)))), Vec::<i32>::new());
    assert_eq!(filter_rows(&rows, &None, &None).len(), 10);
    assert!(within(&at(30), &Some(at(30)), &Some(at(30))));
    assert!(!within(&at(29), &Some(at(30)), &None));
    assert!(!within(&at(31), &None, &Some(at(30))));
    assert!(within(&Timestamp::new(30, 1), &Some(at(30)), &None));
    assert!(!within(&Timestamp::new(30, 1), &None, &Some(at(30))));
}

#[test]
fn total_counts_what_matches_whatever_the_page() {
    let rows: Vec<ContentItem> = (1..=10).map(|id| item(id, id as i64)).collect();
    let bounded = |limit, offset| ListContentParams {
        limit,
        offset,
        since: Some(at(3)),
        until: None,
    };
    for (limit, offset, expected) in [
        (Some(3), Some(0), vec![10, 9, 8]),
        (Some(3), Some(6), vec![4, 3]),
        (Some(3), Some(8), vec![]),
        (Some(3), Some(4_000_000_000), vec![]),
        (None, Some(7), vec![3]),
    ] {
        let result = select_page(&rows, &bounded(limit, offset));
        assert_eq!(ids(&result.items), expected);
        assert_eq!(result.total, 8);
    }
}

#[test]
fn limit_defaults_to_fifty_and_is_clamped_to_a_thousand() {
    assert_eq!(DEFAULT_LIMIT, 50);
    assert_eq!(MAX_LIMIT, 1000);
    assert_eq!(params(None, None).effective_limit(), 50);
    assert_eq!(params(Some(7), None).effective_limit(), 7);
    assert_eq!(params(Some(1000), None).effective_limit(), 1000);
    assert_eq!(params(Some(1001), None).effective_limit(), 1000);
    assert_eq!(params(Some(u32::MAX), None).effective_limit(), 1000);
    assert_eq!(params(None, None).effective_offset(), 0);
    assert_eq!(params(None, Some(9)).effective_offset(), 9);
    let rows: Vec<ContentItem> = (1..=1200).map(|id| item(id, id as i64)).collect();
    assert_eq!(select_page(&rows, &params(None, None)).items.len(), 50);
    let clamped = select_page(&rows, &params(Some(5000), None));
    assert_eq!(clamped.items.len(), 1000);
    assert_eq!(clamped.total, 1200);
    assert_eq!(clamped.items[0].id, 1200);
    assert_eq!(clamped.items[999].id, 201);
}

#[test]
fn ranking_and_paging_steps() {
    let ranked = rank_items(vec![item(1, 5), item(2, 9), item(3, 1)]);
    assert_eq!(ids(&ranked), vec![2, 1, 3]);
    assert_eq!(rank_items(vec![]), vec![]);
    assert_eq!(ids(&take_page(ranked.clone(), 1, 1)), vec![1]);
    assert_eq!(ids(&take_page(ranked.clone(), 0, 0)), Vec::<i32>::new());
    assert_eq!(ids(&take_page(ranked.clone(), 3, 5)), Vec::<i32>::new());
    assert_eq!(ids(&take_page(ranked, 2, 5)), vec![3]);
}

#[test]
fn store_listing_goes_through_the_same_steps() {
    let repo = store_with(&[
        ("https://example.com/a", "A", 20),
        ("https://example.com/b", "B", 30),
        ("https://example.com/c", "C", 10),
    ]);
    let result = repo.list(&params(Some(2), Some(1)));
    assert_eq!(ids(&result.items), vec![1, 3]);
    assert_eq!(result.total, 3);
    assert_eq!(repo.len(), 3);
}

#[test]
fn response_reports_the_requested_limit_and_drops_bodies() {
    let mut repo = MemoryContentRepository::new();
    let payload = AddContentRequest {
        url: "https://example.com/a".to_string(),
        title: Some("T".to_string()),
        author: Some("A".to_string()),
        body: Some("B".to_string()),
    };
    add_content(&mut repo, payload, at(5)).unwrap();
    let mut query = no_query();
    query.limit = Some("7".to_string());
    let response = list_content(&repo, &query).unwrap();
    assert_eq!(response.limit, 7);
    assert_eq!(response.total, 1);
    assert_eq!(response.items[0].id, 1);
    assert_eq!(response.items[0].url, "https://example.com/a");
    assert_eq!(response.items[0].title, Some("T".to_string()));
    assert_eq!(response.items[0].author, Some("A".to_string()));
    assert_eq!(response.items[0].created_at, at(5));
    query.limit = Some("2000".to_string());
    assert_eq!(list_content(&repo, &query).unwrap().limit, 2000);
}

#[test]
fn unsigned_parameters() {
    assert_eq!(parse_u32("0"), Some(0));
    assert_eq!(parse_u32("50"), Some(50));
    assert_eq!(parse_u32("+5"), Some(5));
    assert_eq!(parse_u32("007"), Some(7));
    assert_eq!(parse_u32("4294967295"), Some(u32::MAX));
    assert_eq!(parse_u32("4294967296"), None);
    assert_eq!(parse_u32("99999999999999999999999999"), None);
    assert_eq!(parse_u32(""), None);
    assert_eq!(parse_u32("+"), None);
    assert_eq!(parse_u32("-1"), None);
    assert_eq!(parse_u32("-0"), None);
    assert_eq!(parse_u32("++1"), None);
    assert_eq!(parse_u32(" 1"), None);
    assert_eq!(parse_u32("1 "), None);
    assert_eq!(parse_u32("1a"), None);
    assert_eq!(parse_u32("not_a_number"), None);
    assert_eq!(parse_u32("\u{661}"), None);
    for text in ["0", "+5", "007", "4294967295", "4294967296", "", "+", "-1", "1a"] {
        assert_eq!(parse_u32(text), text.parse::<u32>().ok());
    }
}

#[test]
fn date_time_bounds_are_read_as_utc_instants() {
    let mut query = no_query();
    query.since = Some("2024-01-02T00:00:00Z".to_string());
    query.until = Some("2024-01-02T02:00:00.5+02:00".to_string());
    let parsed = parse_list_query(&query).unwrap();
    assert_eq!(parsed.since, Some(Timestamp::new(1704153600, 0)));
    assert_eq!(parsed.until, Some(Timestamp::new(1704153600, 500_000_000)));
    assert_eq!(parsed.limit, None);
    assert_eq!(parsed.offset, None);
    query.since = Some("1969-12-31T23:59:59Z".to_string());
    assert_eq!(parse_list_query(&query).unwrap().since, Some(Timestamp::new(-1, 0)));
}

#[test]
fn query_validation_reports_the_first_failure() {
    let all_bad = ListContentQuery {
        limit: Some("x".to_string()),
        offset: Some("-3".to_string()),
        since: Some("yesterday".to_string()),
        until: Some("2024-01-02".to_string()),
    };
    assert_eq!(
        bad_request(parse_list_query(&all_bad)),
        "Invalid 'limit' parameter. Use a positive integer."
    );
    let mut query = all_bad.clone();
    query.limit = Some("0".to_string());
    assert_eq!(
        bad_request(parse_list_query(&query)),
        "Invalid 'offset' parameter. Use a non-negative integer."
    );
    query.offset = Some("0".to_string());
    assert_eq!(
        bad_request(parse_list_query(&query)),
        "Invalid 'since' datetime format. Use RFC3339 format."
    );
    query.since = Some("2024-01-02T00:00:00Z".to_string());
    assert_eq!(
        bad_request(parse_list_query(&query)),
        "Invalid 'until' datetime format. Use RFC3339 format."
    );
    query.until = None;
    assert_eq!(bad_request(parse_list_query(&query)), "Limit must be greater than 0");
    query.limit = Some("1".to_string());
    let ok = parse_list_query(&query).unwrap();
    assert_eq!(ok.limit, Some(1));
    assert_eq!(ok.offset, Some(0));
    assert_eq!(ok.until, None);
}

#[test]
fn checking_a_query_takes_the_bounds_as_they_were_read() {
    let mut query = no_query();
    query.until = Some("anything".to_string());
    let ok = check_list_query(&query, Some(at(1)), Some(at(2))).unwrap();
    assert_eq!(ok.since, None);
    assert_eq!(ok.until, Some(at(2)));
    assert_eq!(
        bad_request(check_list_query(&query, None, None)),
        "Invalid 'until' datetime format. Use RFC3339 format."
    );
}
