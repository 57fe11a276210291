use paginator::cursor::{Cursor, CursorDirection, CursorValue};
use paginator::error::PaginatorError;
use paginator::filter::{Filter, FilterOperator, FilterValue};
use paginator::params::{PaginationParams, SortDirection};
use paginator::postgres::{is_cte_query, postgres_count_query, postgres_page_query, BindValue};
use paginator::query::{id_range_condition, surreal_count_query, surreal_page_query, table_query};
use paginator::response::PaginatorResponse;
use paginator::search::SearchParams;

fn s(x: &str) -> String {
    x.to_string()
}

fn filtered() -> PaginationParams {
    PaginationParams::new(3, 10)
        .with_filter(Filter::new(s("age"), FilterOperator::Gt, FilterValue::Int(18)))
        .with_sort(s("name"))
        .with_direction(SortDirection::Desc)
}

#[test]
fn validate_bounds() {
    assert_eq!(PaginationParams::new(1, 10).validate(), Ok(()));
    let mut p = PaginationParams::new(1, 10);
    p.page = 0;
    assert_eq!(p.validate(), Err(PaginatorError::InvalidPage(0)));
    p.page = 1;
    p.per_page = 101;
    assert_eq!(p.validate(), Err(PaginatorError::InvalidPerPage(101)));
}

#[test]
fn fetched_rows_with_total() {
    let p = PaginationParams::new(1, 10);
    let r = PaginatorResponse::from_fetched(&p, Some(25), vec![1; 10]);
    assert_eq!(r.data.len(), 10);
    assert_eq!(r.meta.total_pages, Some(3));
    assert!(r.meta.has_next);
}

#[test]
fn fetched_rows_with_cursor_drop_probe() {
    let mut p = PaginationParams::new(1, 3);
    p.cursor = Some(Cursor::new(s("id"), CursorValue::Int(7), CursorDirection::After));
    let r = PaginatorResponse::from_fetched(&p, None, vec![1, 2, 3, 4]);
    assert_eq!(r.data, vec![1, 2, 3]);
    assert!(r.meta.has_next);
    let r = PaginatorResponse::from_fetched(&p, None, vec![1, 2]);
    assert_eq!(r.data, vec![1, 2]);
    assert!(!r.meta.has_next);
}

#[test]
fn fetched_rows_without_total() {
    let p = PaginationParams::new(2, 2);
    let r = PaginatorResponse::from_fetched(&p, None, vec![1, 2]);
    assert!(!r.meta.has_next);
    assert!(r.meta.has_prev);
    assert_eq!(r.meta.total, None);
}

#[test]
fn surreal_count() {
    let p = filtered();
    assert_eq!(
        surreal_count_query("select * from users", &p).unwrap(),
        "SELECT count() from users WHERE age > 18"
    );
    assert_eq!(
        surreal_count_query("SELECT * FROM users WHERE active = true", &p).unwrap(),
        "SELECT count() FROM users WHERE active = true AND age > 18"
    );
    assert_eq!(
        surreal_count_query("SELECT *", &p),
        Err(PaginatorError::Custom(s("Invalid query: missing FROM clause")))
    );
    assert_eq!(
        surreal_count_query("DELETE users", &p),
        Err(PaginatorError::Custom(s("Query must start with SELECT")))
    );
}

#[test]
fn surreal_page() {
    let p = filtered();
    assert_eq!(
        surreal_page_query("SELECT * FROM users", &p),
        "SELECT * FROM users WHERE age > 18 ORDER BY name DESC LIMIT 10 START 20"
    );
    let mut c = PaginationParams::new(1, 5);
    c.cursor = Some(Cursor::new(s("name"), CursorValue::String(s("O'Neil")), CursorDirection::Before));
    assert_eq!(
        surreal_page_query("SELECT * FROM users", &c),
        "SELECT * FROM users WHERE name < 'O\\'Neil' LIMIT 6"
    );
}

#[test]
fn postgres_plain() {
    let p = PaginationParams::new(2, 10);
    let count = postgres_count_query("SELECT * FROM users", &p);
    assert_eq!(count.sql, "SELECT COUNT(*) FROM (SELECT * FROM users) as count_subquery");
    assert!(count.binds.is_empty());
    let page = postgres_page_query("SELECT * FROM users", &p);
    assert_eq!(page.sql, "SELECT * FROM users LIMIT $1 OFFSET $2");
    assert_eq!(page.binds, vec![BindValue::Int(10), BindValue::Int(10)]);
}

#[test]
fn postgres_filtered_and_searched() {
    let p = filtered()
        .with_filter(Filter::new(
            s("role"),
            FilterOperator::In,
            FilterValue::Array(vec![FilterValue::String(s("a")), FilterValue::Null, FilterValue::Int(2)]),
        ))
        .with_search(SearchParams::new(s("jo"), vec![s("name"), s("email")]));
    let count = postgres_count_query("SELECT * FROM users", &p);
    assert_eq!(
        count.sql,
        "SELECT COUNT(*) FROM (SELECT * FROM users) AS _base WHERE 1=1 AND age > $1 AND role IN ($2, $3) AND (LOWER(name) LIKE LOWER($4) OR LOWER(email) LIKE LOWER($5))"
    );
    assert_eq!(
        count.binds,
        vec![
            BindValue::Int(18),
            BindValue::Text(s("a")),
            BindValue::Int(2),
            BindValue::Text(s("%jo%")),
            BindValue::Text(s("%jo%")),
        ]
    );
    let page = postgres_page_query("SELECT * FROM users", &p);
    assert_eq!(
        page.sql,
        "SELECT * FROM (SELECT * FROM users) AS _base WHERE 1=1 AND age > $1 AND role IN ($2, $3) AND (LOWER(name) LIKE LOWER($4) OR LOWER(email) LIKE LOWER($5)) ORDER BY name DESC LIMIT $6 OFFSET $7"
    );
    assert_eq!(page.binds[5], BindValue::Int(10));
    assert_eq!(page.binds[6], BindValue::Int(20));
}

#[test]
fn postgres_cte_and_cursor() {
    let mut p = PaginationParams::new(1, 5)
        .with_filter(Filter::new(s("x"), FilterOperator::IsNull, FilterValue::Null));
    p.cursor = Some(Cursor::new(s("id"), CursorValue::Int(9), CursorDirection::After));
    let base = "WITH t AS (SELECT 1) SELECT * FROM t;;";
    let count = postgres_count_query(base, &p);
    assert_eq!(
        count.sql,
        "WITH t AS (SELECT 1) SELECT * FROM t, _paginator_filtered AS (SELECT * FROM (WITH t AS (SELECT 1) SELECT * FROM t;;) AS _base WHERE 1=1 AND x IS NULL) SELECT COUNT(*) FROM _paginator_filtered"
    );
    let plain = PaginationParams::new(1, 5);
    let mut c = plain;
    c.cursor = Some(Cursor::new(s("id"), CursorValue::Int(9), CursorDirection::After));
    let page = postgres_page_query("SELECT * FROM t", &c);
    assert_eq!(page.sql, "SELECT * FROM t WHERE id > $1 LIMIT $2");
    assert_eq!(page.binds, vec![BindValue::Int(9), BindValue::Int(6)]);
}

#[test]
fn postgres_case_sensitive_exact_search() {
    let p = PaginationParams::new(1, 10)
        .with_search(SearchParams::new(s("Doe"), vec![s("name")]).with_case_sensitive(true).with_exact_match(true));
    let q = postgres_count_query("SELECT * FROM u", &p);
    assert_eq!(q.sql, "SELECT COUNT(*) FROM (SELECT * FROM u) AS _base WHERE 1=1 AND (name LIKE $1)");
    assert_eq!(q.binds, vec![BindValue::Text(s("Doe"))]);
}

#[test]
fn table_and_id_range_queries() {
    assert_eq!(table_query("users", None), "SELECT * FROM users");
    assert_eq!(table_query("users", Some("age > 1")), "SELECT * FROM users WHERE age > 1");
    assert_eq!(id_range_condition(None, None), None);
    assert_eq!(id_range_condition(Some("users:1"), None), Some(s("id >= users:1")));
    assert_eq!(id_range_condition(None, Some("users:9")), Some(s("id <= users:9")));
    assert_eq!(
        id_range_condition(Some("users:1"), Some("users:9")),
        Some(s("id >= users:1 AND id <= users:9"))
    );
}

#[test]
fn cte_detection() {
    assert!(is_cte_query("  with x as (select 1) select * from x"));
    assert!(is_cte_query("WITH x AS (SELECT 1) SELECT * FROM x"));
    assert!(!is_cte_query("SELECT * FROM t"));
    assert!(!is_cte_query("WIT"));
}

#[test]
fn postgres_between_without_pair_is_equality() {
    let p = PaginationParams::new(1, 10)
        .with_filter(Filter::new(s("x"), FilterOperator::Between, FilterValue::Int(3)))
        .with_filter(Filter::new(
            s("y"),
            FilterOperator::Between,
            FilterValue::Array(vec![FilterValue::Int(1), FilterValue::Int(2), FilterValue::Int(3)]),
        ))
        .with_filter(Filter::new(s("z"), FilterOperator::In, FilterValue::Int(7)))
        .with_filter(Filter::new(s("w"), FilterOperator::NotIn, FilterValue::String(s("q"))))
        .with_filter(Filter::new(
            s("v"),
            FilterOperator::Eq,
            FilterValue::Array(vec![FilterValue::Int(8)]),
        ));
    let q = postgres_count_query("SELECT * FROM t", &p);
    assert_eq!(
        q.sql,
        "SELECT COUNT(*) FROM (SELECT * FROM t) AS _base WHERE 1=1 AND x = $1 AND y = ($2, $3, $4) AND z = $5 AND w != $6 AND v = ($7)"
    );
    assert_eq!(
        q.binds,
        vec![
            BindValue::Int(3),
            BindValue::Int(1),
            BindValue::Int(2),
            BindValue::Int(3),
            BindValue::Int(7),
            BindValue::Text(s("q")),
            BindValue::Int(8),
        ]
    );
}

#[test]
fn fetch_windows() {
    let p = PaginationParams::new(3, 10);
    assert_eq!(p.fetch_window(), (Some(20), 10));
    let mut c = PaginationParams::new(3, 10);
    c.cursor = Some(Cursor::new(s("id"), CursorValue::Int(1), CursorDirection::After));
    assert_eq!(c.fetch_window(), (None, 11));
    let mut big = PaginationParams::new(1, 10);
    big.page = u32::MAX;
    big.per_page = u32::MAX;
    assert_eq!(big.fetch_window(), (Some((u32::MAX as u64 - 1) * u32::MAX as u64), u32::MAX as u64));
    let mut c = PaginationParams::new(1, 1);
    c.per_page = u32::MAX;
    c.cursor = Some(Cursor::new(s("id"), CursorValue::Int(1), CursorDirection::After));
    assert!(surreal_page_query("SELECT * FROM t", &c).ends_with("LIMIT 4294967296"));
}

#[test]
fn surreal_cursor_float_text() {
    let mut c = PaginationParams::new(1, 5);
    c.cursor = Some(Cursor::new(s("ts"), CursorValue::Float(s("2.5")), CursorDirection::After));
    assert_eq!(surreal_page_query("SELECT * FROM t", &c), "SELECT * FROM t WHERE ts > 2.5 LIMIT 6");
    c.cursor = Some(Cursor::new(s("ts"), CursorValue::Float(s("1; DELETE t")), CursorDirection::After));
    assert_eq!(
        surreal_page_query("SELECT * FROM t", &c),
        "SELECT * FROM t WHERE ts > '1; DELETE t' LIMIT 6"
    );
}
