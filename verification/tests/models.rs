use rebuilderd::models::{
    deserialize_comma_separated, deserialize_peer_filter, BinaryIdentityFilter, DisagreementFilter,
    FreshnessFilter, OriginFilter, Page, ResultPage, SearchType, SortDirection,
    SourceIdentityFilter, StatusFilter,
};
use rebuilderd::queue::QueueFilter;

#[test]
fn names_are_searched_exactly_by_default() {
    assert_eq!(SearchType::default(), SearchType::Exact);
    let source = SourceIdentityFilter::default();
    assert_eq!((source.name, source.search_type, source.version), (None, SearchType::Exact, None));
    let binary = BinaryIdentityFilter::default();
    assert_eq!(
        (binary.name, binary.search_type, binary.version, binary.source_name),
        (None, SearchType::Exact, None, None)
    );
    assert_ne!(SearchType::Contains, SearchType::StartsWith);
}

#[test]
fn filters_are_empty_by_default() {
    let filter = DisagreementFilter::default();
    assert_eq!(filter.has_disagreement, None);
    assert!(filter.peer.is_empty());
    assert_eq!(QueueFilter::default().started, None);
}

#[test]
fn peer_filter_is_comma_separated() {
    assert_eq!(deserialize_peer_filter(Some("a, b ,,c".to_string())), ["a", "b", "c"]);
    assert_eq!(deserialize_peer_filter(Some(" , ".to_string())), Vec::<String>::new());
    assert_eq!(deserialize_peer_filter(None), Vec::<String>::new());
}

#[test]
fn empty_list_is_kept_apart_from_none() {
    assert_eq!(
        deserialize_comma_separated(Some("GOOD,BAD".to_string())),
        Some(vec!["GOOD".to_string(), "BAD".to_string()])
    );
    assert_eq!(deserialize_comma_separated(Some(String::new())), Some(Vec::new()));
    assert_eq!(deserialize_comma_separated(None), None);
}

#[test]
fn pages_and_filters_hold_their_parts() {
    let page = Page {
        limit: Some(10),
        before: None,
        after: Some(3),
        sort: Some("name".to_string()),
        direction: Some(SortDirection::Descending),
    };
    assert_eq!(page.clone().direction, Some(SortDirection::Descending));
    assert_ne!(SortDirection::Ascending, SortDirection::Descending);
    let result = ResultPage { total: 2, records: vec![1, 2] };
    assert_eq!((result.total, result.records.len()), (2, 2));
    let origin = OriginFilter {
        distribution: Some("debian".to_string()),
        release: None,
        component: None,
        architecture: None,
    };
    assert_eq!(origin.clone().distribution.as_deref(), Some("debian"));
    assert_eq!(FreshnessFilter { seen_only: Some(true) }.seen_only, Some(true));
    assert_eq!(StatusFilter { status: None }.status, None);
}
