use tolerance_api::toon::{escape_key, is_simple_key, quote_if_needed, quote_string, to_toon, JsonValue};

fn num(n: i64) -> JsonValue {
    JsonValue::Number(n.to_string())
}

fn text(s: &str) -> JsonValue {
    JsonValue::String(s.to_string())
}

fn obj(members: Vec<(&str, JsonValue)>) -> JsonValue {
    JsonValue::Object(members.into_iter().map(|(k, v)| (k.to_string(), v)).collect())
}

#[test]
fn test_primitives() {
    assert_eq!(to_toon(&num(42)), "42");
    assert_eq!(to_toon(&text("hello")), "hello");
    assert_eq!(to_toon(&JsonValue::Bool(true)), "true");
    assert_eq!(to_toon(&JsonValue::Null), "null");
}

#[test]
fn test_simple_object() {
    // Members in the order a JSON object map keeps them (sorted).
    let v = obj(vec![("age", num(30)), ("name", text("Alice"))]);
    let result = to_toon(&v);
    assert!(result.contains("name: Alice"));
    assert!(result.contains("age: 30"));
    assert_eq!(result, "\nage: 30\nname: Alice");
}

#[test]
fn test_primitive_array() {
    let arr = JsonValue::Array(vec![num(1), num(2), num(3)]);
    assert_eq!(to_toon(&arr), "[3]: 1,2,3");
}

#[test]
fn test_uniform_object_array() {
    let arr = JsonValue::Array(vec![
        obj(vec![("id", num(1)), ("name", text("Alice"))]),
        obj(vec![("id", num(2)), ("name", text("Bob"))]),
    ]);
    let result = to_toon(&arr);
    assert!(result.contains("[2]{id,name}:"));
    assert!(result.contains("1,Alice"));
    assert!(result.contains("2,Bob"));
    assert_eq!(result, "[2]{id,name}:\n1,Alice\n2,Bob");
}

#[test]
fn table_columns_are_sorted_and_missing_cells_are_null() {
    // Members out of order: the header lists the keys sorted.
    let arr = JsonValue::Array(vec![
        obj(vec![("name", text("A")), ("id", num(1))]),
        obj(vec![("id", num(2)), ("name", text("B"))]),
    ]);
    assert_eq!(to_toon(&arr), "[2]{id,name}:\n1,A\n2,B");
}

#[test]
fn strings_that_read_as_other_values_are_quoted() {
    assert_eq!(quote_if_needed(""), "\"\"");
    assert_eq!(quote_if_needed("true"), "\"true\"");
    assert_eq!(quote_if_needed("null"), "\"null\"");
    assert_eq!(quote_if_needed("1e5"), "\"1e5\"");
    assert_eq!(quote_if_needed("-.5"), "\"-.5\"");
    assert_eq!(quote_if_needed("1."), "\"1.\"");
    assert_eq!(quote_if_needed("+InFiNiTy"), "\"+InFiNiTy\"");
    assert_eq!(quote_if_needed("NaN"), "\"NaN\"");
    assert_eq!(quote_if_needed("2E-3"), "\"2E-3\"");
    // Not numbers: quoted only for their characters.
    assert_eq!(quote_if_needed("."), ".");
    assert_eq!(quote_if_needed("e5"), "e5");
    assert_eq!(quote_if_needed("1e"), "1e");
    assert_eq!(quote_if_needed("1.2.3"), "1.2.3");
    assert_eq!(quote_if_needed(" 1"), " 1");
    assert_eq!(quote_if_needed("a,b"), "\"a,b\"");
    assert_eq!(quote_if_needed("x\ny"), "\"x\\ny\"");
    assert_eq!(quote_if_needed("plain words"), "plain words");
}

#[test]
fn quoting_escapes_special_characters() {
    assert_eq!(quote_string("a\"b\\c\td\r"), "\"a\\\"b\\\\c\\td\\r\"");
    assert!(is_simple_key("_a.b9"));
    assert!(!is_simple_key("9a"));
    assert!(!is_simple_key(""));
    assert!(!is_simple_key("my key"));
    assert_eq!(escape_key("my key"), "\"my key\"");
    assert_eq!(escape_key("id"), "id");
}

#[test]
fn nested_and_mixed_values() {
    let v = obj(vec![("a", obj(vec![("b", num(1))]))]);
    assert_eq!(to_toon(&v), "\na: b: 1");
    let mixed = JsonValue::Array(vec![num(1), JsonValue::Array(vec![num(2)])]);
    assert_eq!(to_toon(&mixed), "[2]:\n- 1\n- [1]: 2");
    let ragged = JsonValue::Array(vec![obj(vec![("a", num(1))]), obj(vec![("b", num(2))])]);
    assert_eq!(to_toon(&ragged), "[2]:\n-   a: 1\n-   b: 2");
    let with_empty = JsonValue::Array(vec![obj(vec![]), num(1)]);
    assert_eq!(to_toon(&with_empty), "[2]:\n- {}\n- 1");
    assert_eq!(to_toon(&JsonValue::Array(vec![])), "[0]:");
    assert_eq!(to_toon(&obj(vec![])), "");
    let list_member = obj(vec![("xs", JsonValue::Array(vec![num(1), num(2)]))]);
    assert_eq!(to_toon(&list_member), "\nxs: [2]: 1,2");
}

#[test]
fn trailing_whitespace_is_trimmed_from_tables() {
    let arr = JsonValue::Array(vec![obj(vec![("a", text("x "))])]);
    assert_eq!(to_toon(&arr), "[1]{a}:\nx");
    let nested = obj(vec![("o", obj(vec![("k", text("v"))]))]);
    assert_eq!(to_toon(&nested), "\no: k: v");
}
