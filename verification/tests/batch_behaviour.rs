use todo_codec::parser::parse_operations;
use todo_codec::{
    IntegerField, MalformedRecord, OperationType, Position, Range, TodoData, TodoOperation,
};

fn example_record() -> TodoOperation {
    TodoOperation {
        operation: OperationType::Add,
        todo: TodoData {
            engine: String::from("ember-template-lint"),
            rule_id: String::from("bare-strings"),
            file_path: String::from("some/path/here"),
            range: Range {
                start: Position { line: 0, column: 0 },
                end: Position { line: 0, column: 5 },
            },
            source: String::from("hello"),
            created_date: 1000,
            warn_date: 0,
            error_date: 0,
        },
    }
}

#[test]
fn conflict_tolerance_keeps_both_sides() {
    let l1 = example_record().encode();
    let document = format!("{}\n<<<<<<< HEAD\n{}\n=======\n{}\n>>>>>>> branch", l1, l1, l1);
    let parsed = parse_operations(&document).unwrap();
    assert_eq!(parsed.len(), 3);
    for record in parsed {
        assert_eq!(record, example_record());
    }
}

#[test]
fn an_empty_document_parses_to_no_records() {
    assert_eq!(parse_operations("").unwrap(), []);
}

#[test]
fn a_document_of_only_markers_parses_to_no_records() {
    let document = "<<<<<<< HEAD\n=======\n>>>>>>>";
    assert_eq!(parse_operations(document).unwrap(), []);
}

#[test]
fn a_trailing_newline_adds_no_spurious_record() {
    let document = format!("{}\n", example_record().encode());
    assert_eq!(parse_operations(&document).unwrap(), [example_record()]);
}

#[test]
fn windows_line_endings_are_accepted() {
    let l1 = example_record().encode();
    let document = format!("{}\r\n{}\r\n", l1, l1);
    assert_eq!(
        parse_operations(&document).unwrap(),
        [example_record(), example_record()]
    );
}

#[test]
fn a_bare_marker_without_trailing_text_is_skipped() {
    let l1 = example_record().encode();
    let document = format!("<<<<<<<\n{}\n=======\n>>>>>>>", l1);
    assert_eq!(parse_operations(&document).unwrap(), [example_record()]);
}

#[test]
fn short_lines_of_marker_characters_are_data_not_markers() {
    // Fewer than seven marker characters: the line goes to the decoder,
    // which rejects it, instead of being silently skipped.
    assert_eq!(
        parse_operations("<<<"),
        Err(MalformedRecord::WrongFieldCount)
    );
    assert_eq!(
        parse_operations("======"),
        Err(MalformedRecord::WrongFieldCount)
    );
}

#[test]
fn a_data_line_starting_with_few_marker_characters_reaches_the_decoder() {
    let line = "<<<\0e\0r\0p\00\00\00\00\0src\00\00\00";
    assert_eq!(
        parse_operations(line),
        Err(MalformedRecord::UnknownOperation)
    );
    assert_eq!(
        TodoOperation::decode(line),
        Err(MalformedRecord::UnknownOperation)
    );
}

#[test]
fn eight_marker_characters_still_mark_a_conflict_line() {
    // Only the first seven characters are inspected; the eighth is trailing
    // text.
    assert_eq!(parse_operations("<<<<<<<<").unwrap(), []);
}

#[test]
fn the_first_bad_line_aborts_the_whole_parse() {
    let l1 = example_record().encode();
    let document = format!("{}\nadd\0e\0r\0p\0oops\00\00\00\0src\00\00\00\n{}", l1, l1);
    assert_eq!(
        parse_operations(&document),
        Err(MalformedRecord::InvalidInteger(IntegerField::StartLine))
    );
}

#[test]
fn records_come_back_in_input_order() {
    let mut first = example_record();
    first.todo.rule_id = String::from("first");
    let mut second = example_record();
    second.todo.rule_id = String::from("second");
    let document = format!("{}\n{}", first.encode(), second.encode());
    assert_eq!(parse_operations(&document).unwrap(), [first, second]);
}

#[test]
fn an_empty_line_is_a_decode_failure() {
    let l1 = example_record().encode();
    let document = format!("{}\n\n{}", l1, l1);
    assert_eq!(
        parse_operations(&document),
        Err(MalformedRecord::WrongFieldCount)
    );
}
