use paginator::error::PaginatorError;
use paginator::query::{validate_field_name, QueryBuilder};

#[test]
fn test_query_builder() {
    let builder = QueryBuilder::new()
        .select("id, name")
        .from("users")
        .where_clause("age > 18")
        .and("status = 'active'");

    let query = builder.build_query().unwrap();
    assert_eq!(
        query,
        "SELECT id, name FROM users WHERE age > 18 AND status = 'active'"
    );
}

#[test]
fn test_query_builder_no_conditions() {
    let builder = QueryBuilder::new().select("*").from("users");

    let query = builder.build_query().unwrap();
    assert_eq!(query, "SELECT * FROM users");
}

#[test]
fn test_query_builder_no_from() {
    let builder = QueryBuilder::new().select("*");

    let result = builder.build_query();
    assert!(result.is_err());
}

#[test]
fn query_builder_default_selects_everything() {
    let query = QueryBuilder::default().from("t").build_query().unwrap();
    assert_eq!(query, "SELECT * FROM t");
}

#[test]
fn query_builder_missing_from_message() {
    let err = QueryBuilder::new().where_clause("a = 1").build_query().unwrap_err();
    assert_eq!(err, PaginatorError::Custom("FROM clause is required".to_string()));
}

#[test]
fn field_name_accepts_letters_digits_underscore_dot() {
    assert_eq!(validate_field_name("users.created_at2"), Ok(()));
}

#[test]
fn field_name_rejects_empty() {
    assert_eq!(
        validate_field_name(""),
        Err(PaginatorError::Custom("Field name cannot be empty".to_string()))
    );
}

#[test]
fn field_name_names_first_unsafe_char() {
    assert_eq!(
        validate_field_name("id; DROP"),
        Err(PaginatorError::Custom(
            "Invalid field name 'id; DROP': contains unsafe character ';'".to_string()
        ))
    );
}

#[test]
fn field_name_rejects_non_ascii_letter() {
    assert!(validate_field_name("caf\u{e9}").is_err());
}

#[test]
fn error_messages() {
    assert_eq!(
        PaginatorError::InvalidPage(0).message(),
        "Invalid page number: 0. Page must be >= 1"
    );
    assert_eq!(
        PaginatorError::InvalidPerPage(500).message(),
        "Invalid per_page value: 500. Must be between 1 and 100"
    );
    assert_eq!(
        PaginatorError::SerializationError("bad".to_string()).message(),
        "Serialization error: bad"
    );
    assert_eq!(PaginatorError::Custom("x".to_string()).message(), "x");
}
