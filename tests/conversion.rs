use todo_service::error::ServiceError;
use todo_service::ident::{parse_identifier, render_identifier};
use todo_service::todo::{StoredTodo, Todo};

#[test]
fn renders_identifiers_in_decimal() {
    assert_eq!(render_identifier(0), "0");
    assert_eq!(render_identifier(7), "7");
    assert_eq!(render_identifier(1234567890), "1234567890");
    assert_eq!(render_identifier(-7), "-7");
    assert_eq!(render_identifier(i64::MAX), "9223372036854775807");
    assert_eq!(render_identifier(i64::MIN), "-9223372036854775808");
}

#[test]
fn parses_valid_identifiers() {
    assert_eq!(parse_identifier("42"), Ok(42));
    assert_eq!(parse_identifier("0"), Ok(0));
    assert_eq!(parse_identifier("007"), Ok(7));
    assert_eq!(parse_identifier("+5"), Ok(5));
    assert_eq!(parse_identifier("-12"), Ok(-12));
    assert_eq!(parse_identifier("9223372036854775807"), Ok(i64::MAX));
    assert_eq!(parse_identifier("-9223372036854775808"), Ok(i64::MIN));
    assert_eq!(parse_identifier("00000000000000000000000000000001"), Ok(1));
}

#[test]
fn rejects_malformed_identifiers() {
    for s in [
        "",
        "-",
        "+",
        "not-a-number",
        " 1",
        "1 ",
        "1.0",
        "--1",
        "+-1",
        "0x10",
        "\u{0661}",
        "1\u{00e9}",
        "9223372036854775808",
        "-9223372036854775809",
        "99999999999999999999999",
    ] {
        assert_eq!(parse_identifier(s), Err(ServiceError::InvalidArgument), "{:?}", s);
    }
}

#[test]
fn rendering_reads_back() {
    for v in [0i64, 1, -1, 9, 10, 99, 100, 123456789, i64::MAX, i64::MIN, i64::MIN + 1] {
        assert_eq!(parse_identifier(&render_identifier(v)), Ok(v));
    }
}

#[test]
fn stored_todo_to_wire() {
    let row = StoredTodo {
        id: 12,
        title: "Buy milk".to_string(),
        description: "".to_string(),
        completed: true,
    };
    assert_eq!(
        row.to_wire(),
        Todo {
            id: "12".to_string(),
            title: "Buy milk".to_string(),
            description: "".to_string(),
            completed: true,
        }
    );
}

#[test]
fn stored_todo_clone_keeps_fields() {
    let row = StoredTodo {
        id: 3,
        title: " spaced ".to_string(),
        description: "d".to_string(),
        completed: false,
    };
    let copy = row.clone();
    assert_eq!(copy.id, 3);
    assert_eq!(copy.title, " spaced ");
    assert_eq!(copy.description, "d");
    assert!(!copy.completed);
}
