use paginator::builder::{CursorBuilder, FilterBuilder, Paginator, PaginatorBuilder, SearchBuilder};
use paginator::cursor::{Cursor, CursorDirection, CursorValue};
use paginator::filter::{FilterOperator, FilterValue};
use paginator::params::SortDirection;

fn s(x: &str) -> String {
    x.to_string()
}

#[test]
fn paginator_chain() {
    let p = Paginator::new()
        .page(0)
        .per_page(250)
        .sort()
        .desc(s("created_at"))
        .filter()
        .gt(s("age"), FilterValue::Int(18))
        .in_(s("role"), vec![FilterValue::String(s("admin"))])
        .apply()
        .search()
        .query(s("jo"))
        .fields(vec![s("name")])
        .exact(true)
        .apply()
        .cursor()
        .after(s("id"), CursorValue::Int(10))
        .apply()
        .disable_total_count()
        .build();
    assert_eq!(p.page, 1);
    assert_eq!(p.per_page, 100);
    assert_eq!(p.sort_by, Some(s("created_at")));
    assert_eq!(p.sort_direction, Some(SortDirection::Desc));
    assert_eq!(p.filters.len(), 2);
    assert!(p.disable_total_count);
    assert_eq!(p.to_sql_where(), Some(s("age > 18 AND role IN ('admin') AND (name ILIKE 'jo')")));
    assert_eq!(p.cursor.unwrap().direction, CursorDirection::After);
}

#[test]
fn search_without_query_changes_nothing() {
    let p = Paginator::new().search().fields(vec![s("name")]).apply().build();
    assert!(p.search.is_none());
}

#[test]
fn standalone_builders() {
    let filters = FilterBuilder::new()
        .eq(s("a"), FilterValue::Int(1))
        .between(s("b"), FilterValue::Int(1), FilterValue::Int(2))
        .is_null(s("c"))
        .build();
    assert_eq!(filters.len(), 3);
    assert_eq!(filters[1].to_sql_where(), "b BETWEEN 1 AND 2");
    assert_eq!(SearchBuilder::new().build(), None);
    let sp = SearchBuilder::new().query(s("q")).case_sensitive(true).build().unwrap();
    assert!(sp.case_sensitive);
    let p = FilterBuilder::new().like(s("n"), s("%x%")).into_pagination_params();
    assert_eq!(p.per_page, 20);
    assert_eq!(p.to_sql_where(), Some(s("n LIKE '%x%'")));
    let c = CursorBuilder::new().before(s("id"), CursorValue::Int(5)).build().unwrap();
    assert_eq!(c.direction, CursorDirection::Before);
}

#[test]
fn cursor_builder_from_token() {
    let c = Cursor::new(s("id"), CursorValue::Int(42), CursorDirection::After);
    let token = c.encode().unwrap();
    let b = CursorBuilder::new().from_encoded(&token).unwrap();
    assert_eq!(b.build(), Some(c));
    assert!(CursorBuilder::new().from_encoded("@@").is_err());
}

#[test]
fn legacy_builder() {
    let p = PaginatorBuilder::new()
        .page(2)
        .per_page(10)
        .sort_by(s("name"))
        .sort_asc()
        .filter_eq(s("id"), FilterValue::Int(999))
        .filter_ne(s("a"), FilterValue::Int(1))
        .filter_lt(s("b"), FilterValue::Int(2))
        .filter_lte(s("c"), FilterValue::Int(3))
        .filter_gte(s("d"), FilterValue::Int(4))
        .filter_gt(s("e"), FilterValue::Int(5))
        .filter_like(s("f"), s("%x%"))
        .filter_ilike(s("g"), s("%y%"))
        .filter_in(s("h"), vec![FilterValue::Int(1), FilterValue::Int(2)])
        .filter_between(s("i"), FilterValue::Int(1), FilterValue::Int(9))
        .filter_is_null(s("j"))
        .filter_is_not_null(s("k"))
        .filter(s("l"), FilterOperator::Contains, FilterValue::String(s("z")))
        .search_case_sensitive(s("Doe"), vec![s("name")])
        .cursor_before(s("id"), CursorValue::String(s("abc")))
        .disable_total_count()
        .build();
    assert_eq!(p.page, 2);
    assert_eq!(p.offset(), 10);
    assert_eq!(p.sort_direction, Some(SortDirection::Asc));
    assert_eq!(
        p.to_sql_where(),
        Some(s("id = 999 AND a != 1 AND b < 2 AND c <= 3 AND d >= 4 AND e > 5 AND f LIKE '%x%' AND g ILIKE '%y%' AND h IN (1, 2) AND i BETWEEN 1 AND 9 AND j IS NULL AND k IS NOT NULL AND l @> 'z' AND (name LIKE '%Doe%')"))
    );
    assert_eq!(p.cursor.unwrap().field, "id");
    let q = PaginatorBuilder::new().search_exact(s("x"), vec![s("f")]).page(0).per_page(0).build();
    assert_eq!(q.page, 1);
    assert_eq!(q.per_page, 1);
    assert!(q.search.unwrap().exact_match);
}

#[test]
fn legacy_builder_cursor_token() {
    let c = Cursor::new(s("ts"), CursorValue::Float(s("1.5")), CursorDirection::Before);
    let p = PaginatorBuilder::new()
        .cursor_from_encoded(&c.encode().unwrap())
        .unwrap()
        .build();
    assert_eq!(p.cursor, Some(c));
    assert!(PaginatorBuilder::new().cursor_from_encoded("bm90IGpzb24=").is_err());
}

#[test]
fn legacy_builder_sort_desc_and_cursor_after() {
    let p = PaginatorBuilder::default()
        .sort_by(s("id"))
        .sort_desc()
        .cursor_after(s("id"), CursorValue::Int(3))
        .into_pagination_params();
    assert_eq!(p.sort_direction, Some(SortDirection::Desc));
    let c = p.cursor.unwrap();
    assert_eq!(c.direction, CursorDirection::After);
    assert_eq!(c.value, CursorValue::Int(3));
    let q = Paginator::default().sort().asc(s("name")).into_pagination_params();
    assert_eq!(q.sort_direction, Some(SortDirection::Asc));
}
