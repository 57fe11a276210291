use paginator::condition::{Comparison, ConditionSet, Predicate, SqlValue};
use paginator::cursor::{Cursor, CursorDirection, CursorValue};
use paginator::filter::{Filter, FilterOperator, FilterValue, FloatLiteral};
use paginator::params::{PaginationParams, SortDirection};
use paginator::search::SearchParams;

fn s(x: &str) -> String {
    x.to_string()
}

#[test]
fn conditions_of_request() {
    let mut p = PaginationParams::new(1, 10)
        .with_direction(SortDirection::Desc)
        .with_filter(Filter::new(s("age"), FilterOperator::Gte, FilterValue::Int(18)))
        .with_filter(Filter::new(s("name"), FilterOperator::ILike, FilterValue::String(s("%ÉLAN%"))))
        .with_filter(Filter::new(s("tags"), FilterOperator::Contains, FilterValue::String(s("x"))))
        .with_filter(Filter::new(s("bad"), FilterOperator::Like, FilterValue::Int(3)))
        .with_filter(Filter::new(
            s("role"),
            FilterOperator::NotIn,
            FilterValue::Array(vec![FilterValue::String(s("a")), FilterValue::Null]),
        ))
        .with_search(SearchParams::new(s("Jo"), vec![s("name"), s("email")]));
    p.cursor = Some(Cursor::new(s("id"), CursorValue::Int(5), CursorDirection::After));
    let c = ConditionSet::from_params(&p);
    assert_eq!(
        c.all,
        vec![
            Predicate::Compare { column: s("id"), op: Comparison::Lt, value: SqlValue::Int(5) },
            Predicate::Compare { column: s("age"), op: Comparison::Gte, value: SqlValue::Int(18) },
            Predicate::LowerLike { column: s("name"), pattern: s("%élan%") },
            Predicate::Like { column: s("tags"), pattern: s("%x%") },
            Predicate::In {
                column: s("role"),
                values: vec![SqlValue::Text(s("a")), SqlValue::Null],
                negated: true
            },
        ]
    );
    assert_eq!(
        c.any,
        Some(vec![
            Predicate::LowerLike { column: s("name"), pattern: s("%jo%") },
            Predicate::LowerLike { column: s("email"), pattern: s("%jo%") },
        ])
    );
}

#[test]
fn conditions_case_sensitive_search_and_between() {
    let p = PaginationParams::new(1, 10)
        .with_filter(Filter::new(
            s("x"),
            FilterOperator::Between,
            FilterValue::Array(vec![FilterValue::Float(FloatLiteral::new(s("1.5")).unwrap()), FilterValue::Bool(true)]),
        ))
        .with_filter(Filter::new(s("y"), FilterOperator::Between, FilterValue::Int(1)))
        .with_filter(Filter::new(s("z"), FilterOperator::IsNotNull, FilterValue::Null))
        .with_search(SearchParams::new(s("Doe"), vec![s("name")]).with_case_sensitive(true).with_exact_match(true));
    let c = ConditionSet::from_params(&p);
    assert_eq!(
        c.all,
        vec![
            Predicate::Between { column: s("x"), low: SqlValue::Float(s("1.5")), high: SqlValue::Bool(true) },
            Predicate::Compare { column: s("y"), op: Comparison::Eq, value: SqlValue::Int(1) },
            Predicate::IsNull { column: s("z"), negated: true },
        ]
    );
    assert_eq!(c.any, Some(vec![Predicate::Like { column: s("name"), pattern: s("Doe") }]));
    let none = ConditionSet::from_params(&PaginationParams::new(1, 10));
    assert!(none.all.is_empty());
    assert_eq!(none.any, None);
}

#[test]
fn conditions_degrade_to_equality() {
    let p = PaginationParams::new(1, 10)
        .with_filter(Filter::new(s("a"), FilterOperator::In, FilterValue::Int(4)))
        .with_filter(Filter::new(s("b"), FilterOperator::NotIn, FilterValue::String(s("x"))))
        .with_filter(Filter::new(
            s("c"),
            FilterOperator::Between,
            FilterValue::Array(vec![FilterValue::Int(1)]),
        ));
    let c = ConditionSet::from_params(&p);
    assert_eq!(
        c.all,
        vec![
            Predicate::Compare { column: s("a"), op: Comparison::Eq, value: SqlValue::Int(4) },
            Predicate::Compare { column: s("b"), op: Comparison::Ne, value: SqlValue::Text(s("x")) },
            Predicate::In { column: s("c"), values: vec![SqlValue::Int(1)], negated: false },
        ]
    );
}
