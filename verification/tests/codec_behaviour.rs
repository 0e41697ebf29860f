use todo_codec::parser::parse_operations;
use todo_codec::{
    IntegerField, MalformedRecord, OperationType, Position, Range, TodoData, TodoOperation,
};

fn build_simple_operation() -> TodoOperation {
    TodoOperation {
        operation: OperationType::Add,
        todo: TodoData {
            engine: String::from("ember-template-lint"),
            file_path: String::from("some/path/here"),
            rule_id: String::from("bare-strings"),
            range: Range {
                start: Position { line: 0, column: 0 },
                end: Position { line: 0, column: 5 },
            },
            source: String::from("hello"),
            created_date: 1000,
            warn_date: 0,
            error_date: 0,
        },
    }
}

const SIMPLE_LINE: &str =
    "add\0ember-template-lint\0bare-strings\0some/path/here\00\00\00\05\0hello\01000\00\00";

#[test]
fn it_can_generate_string_from_todo_data() {
    let todo = build_simple_operation();

    assert_eq!(todo.encode(), SIMPLE_LINE);
}

#[test]
fn it_can_read_todo_operation_back_from_string() {
    let todo = build_simple_operation();
    let s = todo.encode();

    assert_eq!(TodoOperation::decode(&s).unwrap(), todo);
}

#[test]
fn it_can_parse_many_operations_from_string() {
    let operations = [
        build_simple_operation(),
        build_simple_operation(),
        build_simple_operation(),
        build_simple_operation(),
    ];
    let s = operations
        .iter()
        .map(|todo| todo.encode())
        .collect::<Vec<String>>()
        .join("\n");

    assert_eq!(parse_operations(&s).unwrap(), operations);
}

#[test]
fn it_can_handle_git_conflict_markers() {
    let todo_str = build_simple_operation().encode();
    let theirs_start = "<<<<<<< HEAD";
    let ours_start = "=======";
    let ours_end = ">>>>>>> whatever";

    let conflicted = format!(
        "{}\n{}\n{}\n{}\n{}\n{}",
        todo_str, theirs_start, todo_str, ours_start, todo_str, ours_end
    );

    assert_eq!(
        parse_operations(&conflicted).unwrap(),
        [
            build_simple_operation(),
            build_simple_operation(),
            build_simple_operation()
        ]
    );
}

#[test]
fn decoding_the_example_line_reproduces_the_record() {
    assert_eq!(
        TodoOperation::decode(SIMPLE_LINE).unwrap(),
        build_simple_operation()
    );
}

#[test]
fn remove_operations_round_trip() {
    let todo = TodoOperation {
        operation: OperationType::Remove,
        todo: build_simple_operation().todo,
    };
    let s = todo.encode();
    assert!(s.starts_with("remove\0"));
    assert_eq!(TodoOperation::decode(&s).unwrap(), todo);
}

#[test]
fn negative_and_extreme_integers_round_trip() {
    let todo = TodoOperation {
        operation: OperationType::Remove,
        todo: TodoData {
            engine: String::from("e"),
            rule_id: String::from("r"),
            file_path: String::from("p"),
            range: Range {
                start: Position {
                    line: i32::MIN,
                    column: -1,
                },
                end: Position {
                    line: i32::MAX,
                    column: 7,
                },
            },
            source: String::new(),
            created_date: i64::MIN,
            warn_date: -42,
            error_date: i64::MAX,
        },
    };
    let s = todo.encode();
    assert_eq!(
        s,
        "remove\0e\0r\0p\0-2147483648\0-1\02147483647\07\0\0-9223372036854775808\0-42\09223372036854775807"
    );
    assert_eq!(TodoOperation::decode(&s).unwrap(), todo);
}

#[test]
fn reencoding_a_decoded_line_is_identical() {
    let s = build_simple_operation().encode();
    let again = TodoOperation::decode(&s).unwrap().encode();
    assert_eq!(again, s);
}

#[test]
fn too_few_fields_is_wrong_field_count() {
    assert_eq!(
        TodoOperation::decode("add\0a\0b"),
        Err(MalformedRecord::WrongFieldCount)
    );
}

#[test]
fn too_many_fields_is_wrong_field_count() {
    let s = format!("{}\0extra", SIMPLE_LINE);
    assert_eq!(
        TodoOperation::decode(&s),
        Err(MalformedRecord::WrongFieldCount)
    );
}

#[test]
fn unknown_operation_tags_are_rejected() {
    for tag in ["ad", "", "ADD", "Add", "add ", " add", "addremove"] {
        let s = format!(
            "{}\0e\0r\0p\00\00\00\00\0src\00\00\00",
            tag
        );
        assert_eq!(
            TodoOperation::decode(&s),
            Err(MalformedRecord::UnknownOperation),
            "tag {:?} should be rejected",
            tag
        );
    }
}

#[test]
fn both_known_tags_are_accepted() {
    for tag in ["add", "remove"] {
        let s = format!("{}\0e\0r\0p\00\00\00\00\0src\00\00\00", tag);
        assert!(TodoOperation::decode(&s).is_ok());
    }
}

#[test]
fn each_integer_field_reports_its_own_error() {
    let cases = [
        (4, IntegerField::StartLine),
        (5, IntegerField::StartColumn),
        (6, IntegerField::EndLine),
        (7, IntegerField::EndColumn),
        (9, IntegerField::CreatedDate),
        (10, IntegerField::WarnDate),
        (11, IntegerField::ErrorDate),
    ];
    for (index, field) in cases {
        let mut fields: Vec<String> = "add\0e\0r\0p\00\00\00\00\0src\00\00\00"
            .split('\0')
            .map(String::from)
            .collect();
        fields[index] = String::from("oops");
        let line = fields.join("\0");
        assert_eq!(
            TodoOperation::decode(&line),
            Err(MalformedRecord::InvalidInteger(field))
        );
    }
}

#[test]
fn malformed_integer_shapes_are_rejected() {
    for bad in ["", " 1", "1 ", "1.5", "+", "-", "--1", "0x10", "1e3"] {
        let s = format!("add\0e\0r\0p\0{}\00\00\00\0src\00\00\00", bad);
        assert_eq!(
            TodoOperation::decode(&s),
            Err(MalformedRecord::InvalidInteger(IntegerField::StartLine)),
            "integer field {:?} should be rejected",
            bad
        );
    }
}

#[test]
fn integer_overflow_is_rejected() {
    let s = "add\0e\0r\0p\02147483648\00\00\00\0src\00\00\00";
    assert_eq!(
        TodoOperation::decode(s),
        Err(MalformedRecord::InvalidInteger(IntegerField::StartLine))
    );
    let s = "add\0e\0r\0p\00\00\00\00\0src\09223372036854775808\00\00";
    assert_eq!(
        TodoOperation::decode(s),
        Err(MalformedRecord::InvalidInteger(IntegerField::CreatedDate))
    );
    let s = "add\0e\0r\0p\00\00\00\00\0src\0-9223372036854775809\00\00";
    assert_eq!(
        TodoOperation::decode(s),
        Err(MalformedRecord::InvalidInteger(IntegerField::CreatedDate))
    );
    let s = "add\0e\0r\0p\00\00\00\00\0src\099999999999999999999999999999\00\00";
    assert_eq!(
        TodoOperation::decode(s),
        Err(MalformedRecord::InvalidInteger(IntegerField::CreatedDate))
    );
}

#[test]
fn non_canonical_integers_decode_and_reencode_canonically() {
    let s = "add\0e\0r\0p\0+5\0007\0-0\00\0src\01000\00\00";
    let decoded = TodoOperation::decode(s).unwrap();
    assert_eq!(decoded.todo.range.start.line, 5);
    assert_eq!(decoded.todo.range.start.column, 7);
    assert_eq!(decoded.todo.range.end.line, 0);
    assert_eq!(
        decoded.encode(),
        "add\0e\0r\0p\05\07\00\00\0src\01000\00\00"
    );
    let extremes = "add\0e\0r\0p\0-2147483648\0+2147483647\00\00\0src\0-9223372036854775808\0+9223372036854775807\00";
    let decoded = TodoOperation::decode(extremes).unwrap();
    assert_eq!(decoded.todo.range.start.line, i32::MIN);
    assert_eq!(decoded.todo.range.start.column, i32::MAX);
    assert_eq!(decoded.todo.created_date, i64::MIN);
    assert_eq!(decoded.todo.warn_date, i64::MAX);
}
