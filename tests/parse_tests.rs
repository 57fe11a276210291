use paginator::filter::{Filter, FilterOperator, FilterValue, FloatLiteral};
use paginator::parse::{float_text, parse_filter, parse_i64, split_on, trimmed};
use paginator::request::{parse_sort_direction, parse_u32};
use paginator::params::SortDirection;

fn s(x: &str) -> String {
    x.to_string()
}

#[test]
fn parse_filter_scalar_int() {
    let f = parse_filter("age:gt:18").unwrap();
    assert_eq!(f, Filter::new(s("age"), FilterOperator::Gt, FilterValue::Int(18)));
    assert_eq!(f.to_sql_where(), "age > 18");
}

#[test]
fn parse_filter_typing_order() {
    assert_eq!(parse_filter("x:eq:2.5").unwrap().value, FilterValue::Float(FloatLiteral::new(s("2.5")).unwrap()));
    assert_eq!(parse_filter("x:eq:true").unwrap().value, FilterValue::Bool(true));
    assert_eq!(parse_filter("x:eq:false").unwrap().value, FilterValue::Bool(false));
    assert_eq!(parse_filter("x:eq:active").unwrap().value, FilterValue::String(s("active")));
    assert_eq!(parse_filter("x:eq:-7").unwrap().value, FilterValue::Int(-7));
    assert_eq!(parse_filter("x:eq:+7").unwrap().value, FilterValue::Int(7));
    assert_eq!(parse_filter("x:eq:1e3").unwrap().value, FilterValue::Float(FloatLiteral::new(s("1e3")).unwrap()));
    assert_eq!(parse_filter("x:eq:inf").unwrap().value, FilterValue::Float(FloatLiteral::new(s("inf")).unwrap()));
    assert_eq!(
        parse_filter("x:eq:99999999999999999999").unwrap().value,
        FilterValue::Float(FloatLiteral::new(s("99999999999999999999")).unwrap())
    );
}

#[test]
fn parse_filter_value_keeps_colons() {
    let f = parse_filter("t:eq:10:30").unwrap();
    assert_eq!(f.value, FilterValue::String(s("10:30")));
}

#[test]
fn parse_filter_lists() {
    let f = parse_filter("status:in:a, b ,3").unwrap();
    assert_eq!(f.operator, FilterOperator::In);
    assert_eq!(
        f.value,
        FilterValue::Array(vec![
            FilterValue::String(s("a")),
            FilterValue::String(s("b")),
            FilterValue::Int(3)
        ])
    );
    assert_eq!(f.to_sql_where(), "status IN ('a', 'b', 3)");
    let f = parse_filter("flag:not_in:true,x").unwrap();
    assert_eq!(
        f.value,
        FilterValue::Array(vec![FilterValue::Bool(true), FilterValue::String(s("x"))])
    );
}

#[test]
fn parse_filter_between_reads_no_booleans() {
    let f = parse_filter("x:between:1,true").unwrap();
    assert_eq!(
        f.value,
        FilterValue::Array(vec![FilterValue::Int(1), FilterValue::String(s("true"))])
    );
    let f = parse_filter("x:between:1, 5").unwrap();
    assert_eq!(f.to_sql_where(), "x BETWEEN 1 AND 5");
}

#[test]
fn parse_filter_null_tests() {
    let f = parse_filter("deleted_at:is_null:").unwrap();
    assert_eq!(f.value, FilterValue::Null);
    assert_eq!(f.to_sql_where(), "deleted_at IS NULL");
    let f = parse_filter("deleted_at:is_not_null:whatever").unwrap();
    assert_eq!(f.value, FilterValue::Null);
}

#[test]
fn parse_filter_rejects() {
    assert_eq!(parse_filter("age:gt"), None);
    assert_eq!(parse_filter("age"), None);
    assert_eq!(parse_filter("age:bigger:3"), None);
    assert_eq!(parse_filter("age:GT:3"), None);
}

#[test]
fn every_operator_name() {
    let names = [
        ("eq", FilterOperator::Eq),
        ("ne", FilterOperator::Ne),
        ("gt", FilterOperator::Gt),
        ("lt", FilterOperator::Lt),
        ("gte", FilterOperator::Gte),
        ("lte", FilterOperator::Lte),
        ("like", FilterOperator::Like),
        ("ilike", FilterOperator::ILike),
        ("in", FilterOperator::In),
        ("not_in", FilterOperator::NotIn),
        ("is_null", FilterOperator::IsNull),
        ("is_not_null", FilterOperator::IsNotNull),
        ("between", FilterOperator::Between),
        ("contains", FilterOperator::Contains),
    ];
    for (name, op) in names {
        let text = format!("f:{}:1", name);
        assert_eq!(parse_filter(&text).unwrap().operator, op);
    }
}

#[test]
fn integer_text() {
    assert_eq!(parse_i64("0"), Some(0));
    assert_eq!(parse_i64("007"), Some(7));
    assert_eq!(parse_i64("-9223372036854775808"), Some(i64::MIN));
    assert_eq!(parse_i64("9223372036854775807"), Some(i64::MAX));
    assert_eq!(parse_i64("9223372036854775808"), None);
    assert_eq!(parse_i64("-"), None);
    assert_eq!(parse_i64(""), None);
    assert_eq!(parse_i64(" 1"), None);
    assert_eq!(parse_u32("4294967295"), Some(u32::MAX));
    assert_eq!(parse_u32("4294967296"), None);
    assert_eq!(parse_u32("-0"), None);
    assert_eq!(parse_u32("+3"), Some(3));
}

#[test]
fn float_text_matches_std() {
    for t in ["1", "1.", ".5", "1.5e3", "-2E-2", "+inf", "Infinity", "NaN", "1e5"] {
        assert!(float_text(t), "{t}");
        assert!(t.parse::<f64>().is_ok(), "{t}");
    }
    for t in ["", ".", "e5", "1e", "--1", "1.2.3", "abc", "in", " 1"] {
        assert!(!float_text(t), "{t}");
        assert!(t.parse::<f64>().is_err(), "{t}");
    }
}

#[test]
fn trim_and_split() {
    assert_eq!(trimmed("  a b \t"), "a b");
    assert_eq!(trimmed("\u{3000}x\u{a0}"), "x");
    assert_eq!(trimmed("   "), "");
    assert_eq!(split_on("a,,b", ','), vec![s("a"), s(""), s("b")]);
    assert_eq!(split_on("", ','), vec![s("")]);
    assert_eq!(split_on("a,", ','), vec![s("a"), s("")]);
}

#[test]
fn sort_direction_names() {
    assert_eq!(parse_sort_direction("asc"), Some(SortDirection::Asc));
    assert_eq!(parse_sort_direction("DESC"), Some(SortDirection::Desc));
    assert_eq!(parse_sort_direction("DeSc"), Some(SortDirection::Desc));
    assert_eq!(parse_sort_direction("up"), None);
    assert_eq!(parse_sort_direction(""), None);
}
