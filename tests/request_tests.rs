use paginator::filter::{FilterOperator, FilterValue};
use paginator::http::{create_link_header, pagination_headers};
use paginator::params::{PaginationParams, SortDirection};
use paginator::request::{params_from_segments, PaginationQuery, PaginationQueryParams};
use paginator::response::PaginatorResponseMeta;

fn s(x: &str) -> String {
    x.to_string()
}

#[test]
fn query_params_full() {
    let q = PaginationQueryParams {
        page: 0,
        per_page: 500,
        sort_by: Some(s("name")),
        sort_direction: Some(s("DESC")),
        filter: vec![s("age:gte:18"), s("broken"), s("status:eq:active")],
        search: Some(s("jo")),
        search_fields: Some(s("name, email")),
    };
    let p = q.into_params();
    assert_eq!(p.page, 1);
    assert_eq!(p.per_page, 100);
    assert_eq!(p.sort_by, Some(s("name")));
    assert_eq!(p.sort_direction, Some(SortDirection::Desc));
    assert_eq!(p.filters.len(), 2);
    assert_eq!(p.filters[0].operator, FilterOperator::Gte);
    assert_eq!(p.filters[1].value, FilterValue::String(s("active")));
    let search = p.search.as_ref().unwrap();
    assert_eq!(search.fields, vec![s("name"), s("email")]);
    assert!(!search.case_sensitive && !search.exact_match);
    assert_eq!(
        p.to_sql_where(),
        Some(s("age >= 18 AND status = 'active' AND (name ILIKE '%jo%' OR email ILIKE '%jo%')"))
    );
}

#[test]
fn query_search_needs_fields() {
    let q = PaginationQueryParams {
        page: 2,
        per_page: 20,
        sort_by: None,
        sort_direction: Some(s("sideways")),
        filter: vec![],
        search: Some(s("jo")),
        search_fields: None,
    };
    let p = q.into_params();
    assert!(p.search.is_none());
    assert_eq!(p.sort_direction, None);
    assert_eq!(p.page, 2);
}

#[test]
fn simple_query_into_and_as_params() {
    let q = PaginationQuery { page: 3, per_page: 0, sort_by: Some(s("id")), sort_direction: Some(s("Asc")) };
    let a = q.as_params();
    assert_eq!(a.page, 3);
    assert_eq!(a.per_page, 1);
    assert_eq!(a.sort_direction, Some(SortDirection::Asc));
    let b = q.into_params();
    assert_eq!(b.sort_by, Some(s("id")));
    assert_eq!(b.per_page, 1);
}

#[test]
fn segments_later_keys_win() {
    let pairs = vec![
        (s("page"), s("4")),
        (s("per_page"), s("1000")),
        (s("page"), s("x")),
        (s("sort_by"), s("created_at")),
        (s("sort_direction"), s("desc")),
        (s("other"), s("1")),
        (s("page"), s("0")),
    ];
    let p = params_from_segments(&pairs);
    assert_eq!(p.page, 1);
    assert_eq!(p.per_page, 100);
    assert_eq!(p.sort_by, Some(s("created_at")));
    assert_eq!(p.sort_direction, Some(SortDirection::Desc));
    let empty = params_from_segments(&vec![]);
    assert_eq!(empty.page, 1);
    assert_eq!(empty.per_page, 20);
}

#[test]
fn link_header_middle_page() {
    let p = PaginationParams::new(2, 10);
    let m = PaginatorResponseMeta::new(2, 10, 25);
    assert_eq!(
        create_link_header("/users", &p, &m),
        "</users?page=1&per_page=10>; rel=\"first\", </users?page=1&per_page=10>; rel=\"prev\", </users?page=3&per_page=10>; rel=\"next\", </users?page=3&per_page=10>; rel=\"last\""
    );
}

#[test]
fn link_header_without_total() {
    let p = PaginationParams::new(1, 5);
    let m = PaginatorResponseMeta::new_without_total(1, 5, false);
    assert_eq!(create_link_header("/a", &p, &m), "</a?page=1&per_page=5>; rel=\"first\"");
}

#[test]
fn headers_follow_meta() {
    let m = PaginatorResponseMeta::new(3, 10, 25);
    assert_eq!(
        pagination_headers(&m),
        vec![
            (s("X-Total-Count"), s("25")),
            (s("X-Total-Pages"), s("3")),
            (s("X-Current-Page"), s("3")),
            (s("X-Per-Page"), s("10")),
        ]
    );
    let m = PaginatorResponseMeta::new_without_total(1, 20, true);
    assert_eq!(
        pagination_headers(&m),
        vec![(s("X-Current-Page"), s("1")), (s("X-Per-Page"), s("20"))]
    );
}
