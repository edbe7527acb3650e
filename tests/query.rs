use repocket::query::{QBool, QContentType, QDetailType, QSort, QState, QueryBuilder};

#[test]
fn build_query_using_default_builder() {
    let query = QueryBuilder::default().build().unwrap();
    assert_eq!(query.state, None);
    assert_eq!(query.favorite, None);
    assert_eq!(query.tag, None);
    assert_eq!(query.content_type, None);
    assert_eq!(query.sort, None);
    assert_eq!(query.detail_type, None);
    assert_eq!(query.search, None);
    assert_eq!(query.domain, None);
    assert_eq!(query.since, None);
    assert_eq!(query.count, None);
    assert_eq!(query.offset, None);
    assert_eq!(query.total, None);
}

#[test]
fn build_query_using_builder() {
    let query = QueryBuilder::default()
        .set_state("Unread")
        .set_favorite(0)
        .set_tag("rust")
        .set_content_type("Article")
        .set_sort("Newest")
        .set_detail_type("Simple")
        .set_search("learn")
        .set_domain(".com")
        .set_count(10)
        .set_offset(0)
        .set_total(1)
        .build()
        .expect("Failed to build query");

    assert_eq!(query.state, Some(QState::Unread));
    assert_eq!(query.favorite, Some(QBool::No));
    assert_eq!(query.tag, Some("rust".to_string()));
    assert_eq!(query.content_type, Some(QContentType::Article));
    assert_eq!(query.sort, Some(QSort::Newest));
    assert_eq!(query.detail_type, Some(QDetailType::Simple));
    assert_eq!(query.search, Some("learn".to_string()));
    assert_eq!(query.domain, Some(".com".to_string()));
    assert_eq!(query.count, Some(10));
    assert_eq!(query.offset, Some(0));
    assert_eq!(query.total, Some(QBool::Yes));
}

#[test]
fn count_is_capped_and_flags_out_of_range_clear() {
    let query = QueryBuilder::default()
        .set_count(200)
        .set_favorite(7)
        .set_total(2)
        .set_since(1729763686)
        .build()
        .unwrap();
    assert_eq!(query.count, Some(30));
    assert_eq!(query.favorite, None);
    assert_eq!(query.total, None);
    assert_eq!(query.since, Some(1729763686));
}

#[test]
fn names_are_read_exactly() {
    assert_eq!(QState::from_name("Archive"), Some(QState::Archive));
    assert_eq!(QState::from_name("archive"), None);
    assert_eq!(QSort::from_name("Site"), Some(QSort::Site));
    assert_eq!(QDetailType::from_name("Complete"), Some(QDetailType::Complete));
    assert_eq!(QContentType::from_name("Video"), Some(QContentType::Video));
    assert_eq!(QBool::from_repr(1), Some(QBool::Yes));
}
