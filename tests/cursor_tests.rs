use paginator::cursor::{Cursor, CursorDirection, CursorValue};

#[test]
fn test_cursor_encode_decode_string() {
    let cursor = Cursor::new(
        "id".to_string(),
        CursorValue::String("abc123".to_string()),
        CursorDirection::After,
    );
    let encoded = cursor.encode().unwrap();
    let decoded = Cursor::decode(&encoded).unwrap();
    assert_eq!(cursor, decoded);
}

#[test]
fn test_cursor_encode_decode_int() {
    let cursor = Cursor::new(
        "id".to_string(),
        CursorValue::Int(12345),
        CursorDirection::Before,
    );
    let encoded = cursor.encode().unwrap();
    let decoded = Cursor::decode(&encoded).unwrap();
    assert_eq!(cursor, decoded);
}

#[test]
fn test_cursor_encode_decode_float() {
    let cursor = Cursor::new(
        "timestamp".to_string(),
        CursorValue::Float(1234567890.123f64.to_string()),
        CursorDirection::After,
    );
    let encoded = cursor.encode().unwrap();
    let decoded = Cursor::decode(&encoded).unwrap();
    assert_eq!(cursor, decoded);
}

#[test]
fn cursor_json_matches_serde_layout() {
    let cursor = Cursor::new(
        "id".to_string(),
        CursorValue::Int(12345),
        CursorDirection::Before,
    );
    assert_eq!(
        cursor.to_json().unwrap(),
        "{\"field\":\"id\",\"value\":12345,\"direction\":\"before\"}"
    );
    assert_eq!(
        cursor.encode().unwrap(),
        "eyJmaWVsZCI6ImlkIiwidmFsdWUiOjEyMzQ1LCJkaXJlY3Rpb24iOiJiZWZvcmUifQ=="
    );
}

#[test]
fn cursor_string_escapes_round_trip() {
    let cursor = Cursor::new(
        "na\"me\\".to_string(),
        CursorValue::String("tab\there\nnl \u{1} caf\u{e9} \u{1F600}".to_string()),
        CursorDirection::After,
    );
    let json = cursor.to_json().unwrap();
    assert_eq!(
        json,
        "{\"field\":\"na\\\"me\\\\\",\"value\":\"tab\\there\\nnl \\u0001 caf\u{e9} \u{1F600}\",\"direction\":\"after\"}"
    );
    let decoded = Cursor::decode(&cursor.encode().unwrap()).unwrap();
    assert_eq!(cursor, decoded);
}

#[test]
fn cursor_extreme_ints_round_trip() {
    for v in [i64::MIN, -1, 0, i64::MAX] {
        let cursor = Cursor::new("n".to_string(), CursorValue::Int(v), CursorDirection::Before);
        let decoded = Cursor::decode(&cursor.encode().unwrap()).unwrap();
        assert_eq!(cursor, decoded);
    }
}

#[test]
fn cursor_float_forms_round_trip() {
    for t in ["0.5", "-2.25", "1e21", "1.5e-7", "3E+2"] {
        let cursor = Cursor::new("x".to_string(), CursorValue::Float(t.to_string()), CursorDirection::After);
        let decoded = Cursor::decode(&cursor.encode().unwrap()).unwrap();
        assert_eq!(cursor, decoded);
    }
}

#[test]
fn cursor_rejects_non_number_float_text() {
    for t in ["12", "abc", "1.", ".5", "01.5", ""] {
        let cursor = Cursor::new("x".to_string(), CursorValue::Float(t.to_string()), CursorDirection::After);
        assert!(cursor.encode().is_err(), "{t}");
    }
}

#[test]
fn decode_rejects_invalid_base64() {
    assert!(Cursor::decode("not-valid-base64!!").is_err());
}

#[test]
fn decode_rejects_non_json() {
    // "not json" in standard base64
    assert!(Cursor::decode("bm90IGpzb24=").is_err());
}

#[test]
fn decode_rejects_unknown_direction() {
    // {"field":"id","value":1,"direction":"sideways"}
    assert!(Cursor::decode("eyJmaWVsZCI6ImlkIiwidmFsdWUiOjEsImRpcmVjdGlvbiI6InNpZGV3YXlzIn0=").is_err());
}

#[test]
fn decode_rejects_invalid_utf8() {
    // bytes ff fe
    assert!(Cursor::decode("//4=").is_err());
}

#[test]
fn decode_reads_serde_written_token() {
    // {"field":"created_at","value":"2024-01-01","direction":"after"}
    let token = "eyJmaWVsZCI6ImNyZWF0ZWRfYXQiLCJ2YWx1ZSI6IjIwMjQtMDEtMDEiLCJkaXJlY3Rpb24iOiJhZnRlciJ9";
    let c = Cursor::decode(token).unwrap();
    assert_eq!(c.field, "created_at");
    assert_eq!(c.value, CursorValue::String("2024-01-01".to_string()));
    assert_eq!(c.direction, CursorDirection::After);
}

#[test]
fn decode_accepts_whitespace_and_any_member_order() {
    // ' { "direction" : "before" ,\n "value":\t-7, "field" : "id" } '
    let c = Cursor::decode("IHsgImRpcmVjdGlvbiIgOiAiYmVmb3JlIiAsCiAidmFsdWUiOgktNywgImZpZWxkIiA6ICJpZCIgfSA=").unwrap();
    assert_eq!(c, Cursor::new("id".to_string(), CursorValue::Int(-7), CursorDirection::Before));
}

#[test]
fn decode_reads_every_string_escape() {
    // field "a\/bAé😀", direction "after"
    let c = Cursor::decode("eyJmaWVsZCI6ImFcL2JcdTAwNDFcdTAwZTlcdUQ4M0RcdURFMDAiLCJ2YWx1ZSI6IngiLCJkaXJlY3Rpb24iOiJcdTAwNjFmdGVyIn0=").unwrap();
    assert_eq!(c.field, "a/bA\u{e9}\u{1F600}");
    assert_eq!(c.value, CursorValue::String("x".to_string()));
    assert_eq!(c.direction, CursorDirection::After);
}

#[test]
fn decode_reads_wide_integer_as_float_text() {
    let c = Cursor::decode("eyJmaWVsZCI6Im4iLCJ2YWx1ZSI6OTk5OTk5OTk5OTk5OTk5OTk5OTksImRpcmVjdGlvbiI6ImFmdGVyIn0=").unwrap();
    assert_eq!(c.value, CursorValue::Float("99999999999999999999".to_string()));
    let again = Cursor::decode(&c.encode().unwrap()).unwrap();
    assert_eq!(again, c);
}

#[test]
fn decode_rejects_malformed_objects() {
    for token in [
        "eyJmaWVsZCI6ImlkIiwidmFsdWUiOjEsImRpcmVjdGlvbiI6ImFmdGVyIiwiZXh0cmEiOlsxLH0=",
        "eyJmaWVsZCI6ImlkIiwiZmllbGQiOiJ4IiwidmFsdWUiOjEsImRpcmVjdGlvbiI6ImFmdGVyIn0=",
        "eyJmaWVsZCI6ImlkIiwidmFsdWUiOjF9",
        "eyJmaWVsZCI6ImlkIiwidmFsdWUiOnRydWUsImRpcmVjdGlvbiI6ImFmdGVyIn0=",
        "eyJmaWVsZCI6Ilx1ZDgwMCIsInZhbHVlIjoxLCJkaXJlY3Rpb24iOiJhZnRlciJ9",
        "eyJmaWVsZCI6ImlkIiwidmFsdWUiOjEsImRpcmVjdGlvbiI6ImFmdGVyIn0geA==",
    ] {
        assert!(Cursor::decode(token).is_err(), "{token}");
    }
}

#[test]
fn decode_passes_over_other_members() {
    let plain = Cursor::decode("eyJmaWVsZCI6ImlkIiwidmFsdWUiOjEsImRpcmVjdGlvbiI6ImFmdGVyIiwiZXh0cmEiOjF9").unwrap();
    assert_eq!(plain, Cursor::new("id".to_string(), CursorValue::Int(1), CursorDirection::After));
    // {"extra":{"a":[1,true,null,"x",-2.5e3,[]],"b":{}},"field":"id","value":1,"direction":"after","more":false}
    let nested = Cursor::decode("eyJleHRyYSI6eyJhIjpbMSx0cnVlLG51bGwsIngiLC0yLjVlMyxbXV0sImIiOnt9fSwiZmllbGQiOiJpZCIsInZhbHVlIjoxLCJkaXJlY3Rpb24iOiJhZnRlciIsIm1vcmUiOmZhbHNlfQ==").unwrap();
    assert_eq!(nested, plain);
}
