use paginator::cursor::{CursorComparison, CursorDirection};
use paginator::filter::{Filter, FilterOperator, FilterValue, FloatLiteral};
use paginator::params::{PaginationParams, SortDirection};
use paginator::response::PaginatorResponseMeta;
use paginator::search::SearchParams;

fn s(x: &str) -> String {
    x.to_string()
}

#[test]
fn offset_and_limit() {
    let p = PaginationParams::new(3, 10);
    assert_eq!(p.offset(), 20);
    assert_eq!(p.limit(), 10);
}

#[test]
fn first_page_has_no_offset() {
    assert_eq!(PaginationParams::new(1, 50).offset(), 0);
}

#[test]
fn clamping() {
    assert_eq!(PaginationParams::new(0, 10).page, 1);
    assert_eq!(PaginationParams::new(1, 500).per_page, 100);
    assert_eq!(PaginationParams::new(1, 0).per_page, 1);
    assert_eq!(PaginationParams::new(7, 100).per_page, 100);
}

#[test]
fn default_params() {
    let p = PaginationParams::default();
    assert_eq!(p.page, 1);
    assert_eq!(p.per_page, 20);
    assert!(p.filters.is_empty());
    assert!(p.to_sql_where().is_none());
}

#[test]
fn meta_total_mode() {
    let m = PaginatorResponseMeta::new(1, 10, 25);
    assert_eq!(m.total_pages, Some(3));
    assert!(m.has_next);
    assert!(!m.has_prev);
    assert_eq!(m.total, Some(25));

    let m = PaginatorResponseMeta::new(3, 10, 25);
    assert!(!m.has_next);
    assert!(m.has_prev);

    let m = PaginatorResponseMeta::new(1, 10, 0);
    assert_eq!(m.total_pages, Some(0));
    assert!(!m.has_next);
}

#[test]
fn meta_exact_boundary() {
    let m = PaginatorResponseMeta::new(1, 10, 10);
    assert_eq!(m.total_pages, Some(1));
    assert!(!m.has_next);
}

#[test]
fn meta_without_total() {
    let m = PaginatorResponseMeta::new_without_total(2, 10, true);
    assert_eq!(m.total, None);
    assert_eq!(m.total_pages, None);
    assert!(m.has_next);
    assert!(m.has_prev);
}

#[test]
fn meta_with_cursors() {
    let m = PaginatorResponseMeta::new_with_cursors(1, 10, None, false, None, Some(s("abc")));
    assert!(m.has_prev);
    assert_eq!(m.total_pages, None);
    let m = PaginatorResponseMeta::new_with_cursors(1, 10, Some(21), true, Some(s("n")), None);
    assert!(!m.has_prev);
    assert_eq!(m.total_pages, Some(3));
    assert_eq!(m.next_cursor, Some(s("n")));
}

#[test]
fn filter_rendering() {
    let f = Filter::new(s("age"), FilterOperator::Gt, FilterValue::Int(18));
    assert_eq!(f.to_sql_where(), "age > 18");
    let f = Filter::new(
        s("status"),
        FilterOperator::In,
        FilterValue::Array(vec![FilterValue::String(s("a")), FilterValue::String(s("b"))]),
    );
    assert_eq!(f.to_sql_where(), "status IN ('a', 'b')");
    let f = Filter::new(
        s("x"),
        FilterOperator::Between,
        FilterValue::Array(vec![FilterValue::Int(1), FilterValue::Int(5)]),
    );
    assert_eq!(f.to_sql_where(), "x BETWEEN 1 AND 5");
    assert_eq!(f.to_surrealql_where(), "x >= 1 AND x <= 5");
}

#[test]
fn filter_between_fallback() {
    let f = Filter::new(s("x"), FilterOperator::Between, FilterValue::Array(vec![FilterValue::Int(1)]));
    assert_eq!(f.to_sql_where(), "x = (1)");
    assert_eq!(f.to_surrealql_where(), "x = (1)");
}

#[test]
fn value_literals() {
    assert_eq!(FilterValue::String(s("O'Brien")).to_sql_string(), "'O''Brien'");
    assert_eq!(FilterValue::Int(-9223372036854775808).to_sql_string(), "-9223372036854775808");
    assert_eq!(FilterValue::Float(FloatLiteral::new(s("2.5")).unwrap()).to_sql_string(), "2.5");
    assert_eq!(FilterValue::Bool(true).to_sql_string(), "TRUE");
    assert_eq!(FilterValue::Bool(false).to_sql_string(), "FALSE");
    assert_eq!(FilterValue::Null.to_sql_string(), "NULL");
    assert_eq!(FilterValue::Array(vec![]).to_sql_string(), "()");
    assert_eq!(
        FilterValue::Array(vec![FilterValue::Int(1), FilterValue::Array(vec![FilterValue::Null])]).to_sql_string(),
        "(1, (NULL))"
    );
}

#[test]
fn every_operator_sql_and_surrealql() {
    let cases = [
        (FilterOperator::Eq, "f = 1", "f = 1"),
        (FilterOperator::Ne, "f != 1", "f != 1"),
        (FilterOperator::Gt, "f > 1", "f > 1"),
        (FilterOperator::Lt, "f < 1", "f < 1"),
        (FilterOperator::Gte, "f >= 1", "f >= 1"),
        (FilterOperator::Lte, "f <= 1", "f <= 1"),
        (FilterOperator::Like, "f LIKE 1", "f ~ 1"),
        (FilterOperator::ILike, "f ILIKE 1", "f ~ 1"),
        (FilterOperator::In, "f IN 1", "f INSIDE 1"),
        (FilterOperator::NotIn, "f NOT IN 1", "f NOT INSIDE 1"),
        (FilterOperator::IsNull, "f IS NULL", "f IS NULL"),
        (FilterOperator::IsNotNull, "f IS NOT NULL", "f IS NOT NULL"),
        (FilterOperator::Between, "f = 1", "f = 1"),
        (FilterOperator::Contains, "f @> 1", "f CONTAINS 1"),
    ];
    for (op, sql, surreal) in cases {
        let f = Filter::new(s("f"), op, FilterValue::Int(1));
        assert_eq!(f.to_sql_where(), sql);
        assert_eq!(f.to_surrealql_where(), surreal);
    }
}

#[test]
fn search_rendering() {
    let q = SearchParams::new(s("jo'e"), vec![s("name"), s("email")]);
    assert_eq!(q.to_sql_where(), "(name ILIKE '%jo''e%' OR email ILIKE '%jo''e%')");
    assert_eq!(q.to_surrealql_where(), "(name ~ '%jo''e%' OR email ~ '%jo''e%')");
    let q = SearchParams::new(s("Doe"), vec![s("name")]).with_exact_match(true).with_case_sensitive(true);
    assert_eq!(q.to_sql_where(), "(name LIKE 'Doe')");
    let q = SearchParams::new(s("x"), vec![]);
    assert_eq!(q.to_sql_where(), "()");
}

#[test]
fn combined_where() {
    let p = PaginationParams::new(1, 10)
        .with_filter(Filter::new(s("age"), FilterOperator::Gte, FilterValue::Int(18)))
        .with_filter(Filter::new(s("status"), FilterOperator::Eq, FilterValue::String(s("active"))))
        .with_search(SearchParams::new(s("jo"), vec![s("name")]));
    assert_eq!(
        p.to_sql_where(),
        Some(s("age >= 18 AND status = 'active' AND (name ILIKE '%jo%')"))
    );
    assert_eq!(
        p.to_surrealql_where(),
        Some(s("age >= 18 AND status = 'active' AND (name ~ '%jo%')"))
    );
    let empty = PaginationParams::new(1, 10);
    assert_eq!(empty.to_sql_where(), None);
    assert_eq!(empty.to_surrealql_where(), None);
}

#[test]
fn with_filters_keeps_order() {
    let p = PaginationParams::new(1, 10)
        .with_filter(Filter::new(s("a"), FilterOperator::IsNull, FilterValue::Null))
        .with_filters(vec![
            Filter::new(s("b"), FilterOperator::Lt, FilterValue::Int(2)),
            Filter::new(s("c"), FilterOperator::Gt, FilterValue::Int(3)),
        ])
        .with_sort(s("id"))
        .with_direction(SortDirection::Desc);
    assert_eq!(p.to_sql_where(), Some(s("a IS NULL AND b < 2 AND c > 3")));
    assert_eq!(p.sort_by, Some(s("id")));
    assert_eq!(p.sort_direction, Some(SortDirection::Desc));
}

#[test]
fn cursor_operator_table() {
    assert_eq!(CursorDirection::After.comparison(Some(SortDirection::Asc)), CursorComparison::Greater);
    assert_eq!(CursorDirection::After.comparison(Some(SortDirection::Desc)), CursorComparison::Less);
    assert_eq!(CursorDirection::After.comparison(None), CursorComparison::Greater);
    assert_eq!(CursorDirection::Before.comparison(Some(SortDirection::Asc)), CursorComparison::Less);
    assert_eq!(CursorDirection::Before.comparison(Some(SortDirection::Desc)), CursorComparison::Greater);
    assert_eq!(CursorDirection::Before.comparison(None), CursorComparison::Less);
    assert_eq!(CursorComparison::Greater.symbol(), ">");
    assert_eq!(CursorComparison::Less.symbol(), "<");
}

#[test]
fn float_literal_accepts_numbers_only() {
    assert!(FloatLiteral::new(s("1.5e-3")).is_ok());
    assert!(FloatLiteral::new(s("-inf")).is_ok());
    assert_eq!(FloatLiteral::new(s("1; DROP TABLE t")), Err(s("1; DROP TABLE t")));
    assert!(FloatLiteral::new(s("")).is_err());
    assert_eq!(FloatLiteral::new(s("2.5")).unwrap().as_str(), "2.5");
}

#[test]
fn clones_render_alike() {
    let f = Filter::new(
        s("x"),
        FilterOperator::In,
        FilterValue::Array(vec![FilterValue::Int(1), FilterValue::Array(vec![FilterValue::Null])]),
    );
    let g = f.clone();
    assert_eq!(f, g);
    assert_eq!(g.to_sql_where(), "x IN (1, (NULL))");
    let p = PaginationParams::new(2, 5).with_filter(g);
    let q = p.clone();
    assert_eq!(p.to_sql_where(), q.to_sql_where());
}

#[test]
fn meta_with_zero_page_size() {
    let m = PaginatorResponseMeta::new(1, 0, 0);
    assert_eq!(m.total_pages, Some(0));
    let m = PaginatorResponseMeta::new(1, 0, 5);
    assert_eq!(m.total_pages, Some(u32::MAX));
    assert!(m.has_next);
}
