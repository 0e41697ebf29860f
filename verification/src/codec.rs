//! The record codec: one [`TodoOperation`] to its canonical NUL-delimited
//! line and back.
use crate::num::{
    decimal_string_i32, decimal_string_i64, i32_ok, i64_ok, int_repr, int_val,
    lemma_int_repr_round_trip, parse_i32_field, parse_i64_field,
};
use crate::text::{
    all_free_of, chars_of_str, free_of, join_strings, join_with, lemma_join_free_of,
    lemma_split_join, split_on, split_prefix, string_of_chars,
};
use crate::{
    model_valid, IntegerField, MalformedRecord, OperationType, Position, Range, TodoData,
    TodoDataModel, TodoOperation, TodoOperationModel,
};
use vstd::prelude::*;

verus! {

/// The encoded operation tag for adding a violation.
pub open spec fn add_tag() -> Seq<char> {
    seq!['a', 'd', 'd']
}

/// The encoded operation tag for removing a violation.
pub open spec fn remove_tag() -> Seq<char> {
    seq!['r', 'e', 'm', 'o', 'v', 'e']
}

/// The encoded tag of an operation.
pub open spec fn tag_chars(op: OperationType) -> Seq<char> {
    match op {
        OperationType::Add => add_tag(),
        OperationType::Remove => remove_tag(),
    }
}

/// The twelve fields of a record, in encoding order: operation tag, engine,
/// rule id, file path, the four range coordinates, source, and the three
/// dates, with every integer in its canonical base-10 rendering.
pub open spec fn field_seqs(m: TodoOperationModel) -> Seq<Seq<char>> {
    seq![
        tag_chars(m.operation),
        m.todo.engine,
        m.todo.rule_id,
        m.todo.file_path,
        int_repr(m.todo.range.start.line as int),
        int_repr(m.todo.range.start.column as int),
        int_repr(m.todo.range.end.line as int),
        int_repr(m.todo.range.end.column as int),
        m.todo.source,
        int_repr(m.todo.created_date as int),
        int_repr(m.todo.warn_date as int),
        int_repr(m.todo.error_date as int),
    ]
}

/// The canonical encoded line of a record: its twelve fields joined by NUL.
pub open spec fn encode_spec(m: TodoOperationModel) -> Seq<char> {
    join_with(field_seqs(m), '\0')
}

/// What decoding a line yields: the record, or the first failure in field
/// order. The line must split on NUL into exactly twelve fields, the first
/// field must be `add` or `remove`, and each integer field must parse as a
/// base-10 signed integer of the field's width; text fields are taken
/// verbatim.
pub open spec fn decode_spec(line: Seq<char>) -> Result<TodoOperationModel, MalformedRecord> {
    let fs = split_on(line, '\0');
    if fs.len() != 12 {
        Err(MalformedRecord::WrongFieldCount)
    } else if fs[0] != add_tag() && fs[0] != remove_tag() {
        Err(MalformedRecord::UnknownOperation)
    } else if !i32_ok(fs[4]) {
        Err(MalformedRecord::InvalidInteger(IntegerField::StartLine))
    } else if !i32_ok(fs[5]) {
        Err(MalformedRecord::InvalidInteger(IntegerField::StartColumn))
    } else if !i32_ok(fs[6]) {
        Err(MalformedRecord::InvalidInteger(IntegerField::EndLine))
    } else if !i32_ok(fs[7]) {
        Err(MalformedRecord::InvalidInteger(IntegerField::EndColumn))
    } else if !i64_ok(fs[9]) {
        Err(MalformedRecord::InvalidInteger(IntegerField::CreatedDate))
    } else if !i64_ok(fs[10]) {
        Err(MalformedRecord::InvalidInteger(IntegerField::WarnDate))
    } else if !i64_ok(fs[11]) {
        Err(MalformedRecord::InvalidInteger(IntegerField::ErrorDate))
    } else {
        Ok(
            TodoOperationModel {
                operation: if fs[0] == add_tag() {
                    OperationType::Add
                } else {
                    OperationType::Remove
                },
                todo: TodoDataModel {
                    engine: fs[1],
                    rule_id: fs[2],
                    file_path: fs[3],
                    range: Range {
                        start: Position {
                            line: int_val(fs[4]) as i32,
                            column: int_val(fs[5]) as i32,
                        },
                        end: Position { line: int_val(fs[6]) as i32, column: int_val(fs[7]) as i32 },
                    },
                    source: fs[8],
                    created_date: int_val(fs[9]) as i64,
                    warn_date: int_val(fs[10]) as i64,
                    error_date: int_val(fs[11]) as i64,
                },
            },
        )
    }
}

/// Holds when the outcome `r` of decoding agrees exactly with
/// [`decode_spec`] on `line`: the same error, or a record whose value is the
/// specified one.
pub open spec fn decode_result_matches(
    line: Seq<char>,
    r: Result<TodoOperation, MalformedRecord>,
) -> bool {
    match r {
        Ok(op) => decode_spec(line) == Ok::<TodoOperationModel, MalformedRecord>(op@),
        Err(e) => decode_spec(line) == Err::<TodoOperationModel, MalformedRecord>(e),
    }
}

/// Round trip: decoding the encoding of any record whose text fields are
/// NUL-free yields exactly that record.
pub proof fn lemma_round_trip(m: TodoOperationModel)
    requires
        model_valid(m),
    ensures
        decode_spec(encode_spec(m)) == Ok::<TodoOperationModel, MalformedRecord>(m),
{
    let fs = field_seqs(m);
    lemma_int_repr_round_trip(m.todo.range.start.line as int);
    lemma_int_repr_round_trip(m.todo.range.start.column as int);
    lemma_int_repr_round_trip(m.todo.range.end.line as int);
    lemma_int_repr_round_trip(m.todo.range.end.column as int);
    lemma_int_repr_round_trip(m.todo.created_date as int);
    lemma_int_repr_round_trip(m.todo.warn_date as int);
    lemma_int_repr_round_trip(m.todo.error_date as int);
    assert(free_of(tag_chars(m.operation), '\0'));
    assert(all_free_of(fs, '\0'));
    lemma_split_join(fs, '\0');
    assert(decode_spec(encode_spec(m)) matches Ok(m2) && m2 =~= m);
}

/// Idempotent re-encode: encoding the decoding of an encoded record gives
/// back the identical line.
pub proof fn lemma_reencode_idempotent(m: TodoOperationModel)
    requires
        model_valid(m),
    ensures
        decode_spec(encode_spec(m)) is Ok,
        encode_spec(decode_spec(encode_spec(m))->Ok_0) == encode_spec(m),
{
    lemma_round_trip(m);
}

/// An encoded line contains no line break, provided the record's own text
/// fields contain none: every other character of the encoding is a NUL
/// separator, a tag letter, a digit or a minus sign.
pub proof fn lemma_encode_no_line_break(m: TodoOperationModel)
    requires
        free_of(m.todo.engine, '\n'),
        free_of(m.todo.engine, '\r'),
        free_of(m.todo.rule_id, '\n'),
        free_of(m.todo.rule_id, '\r'),
        free_of(m.todo.file_path, '\n'),
        free_of(m.todo.file_path, '\r'),
        free_of(m.todo.source, '\n'),
        free_of(m.todo.source, '\r'),
    ensures
        free_of(encode_spec(m), '\n'),
        free_of(encode_spec(m), '\r'),
{
    lemma_int_repr_round_trip(m.todo.range.start.line as int);
    lemma_int_repr_round_trip(m.todo.range.start.column as int);
    lemma_int_repr_round_trip(m.todo.range.end.line as int);
    lemma_int_repr_round_trip(m.todo.range.end.column as int);
    lemma_int_repr_round_trip(m.todo.created_date as int);
    lemma_int_repr_round_trip(m.todo.warn_date as int);
    lemma_int_repr_round_trip(m.todo.error_date as int);
    assert(free_of(tag_chars(m.operation), '\n'));
    assert(free_of(tag_chars(m.operation), '\r'));
    assert(all_free_of(field_seqs(m), '\n'));
    assert(all_free_of(field_seqs(m), '\r'));
    lemma_join_free_of(field_seqs(m), '\0', '\n');
    lemma_join_free_of(field_seqs(m), '\0', '\r');
}

/// Field-count enforcement: a line that does not split into exactly twelve
/// NUL-delimited fields fails to decode with `WrongFieldCount`.
pub proof fn lemma_wrong_field_count(line: Seq<char>)
    requires
        split_on(line, '\0').len() != 12,
    ensures
        decode_spec(line) == Err::<TodoOperationModel, MalformedRecord>(
            MalformedRecord::WrongFieldCount,
        ),
{
}

/// Operation-tag enforcement: a twelve-field line whose first field is
/// neither `add` nor `remove` fails to decode with `UnknownOperation`.
pub proof fn lemma_unknown_operation(line: Seq<char>)
    requires
        split_on(line, '\0').len() == 12,
        split_on(line, '\0')[0] != add_tag(),
        split_on(line, '\0')[0] != remove_tag(),
    ensures
        decode_spec(line) == Err::<TodoOperationModel, MalformedRecord>(
            MalformedRecord::UnknownOperation,
        ),
{
}

/// The operation named by a tag field, or `None` for any other field value.
fn tag_of_field(f: &Vec<char>) -> (r: Option<OperationType>)
    ensures
        match r {
            Some(op) => f@ == tag_chars(op),
            None => f@ != add_tag() && f@ != remove_tag(),
        },
{
    if f.len() == 3 && f[0] == 'a' && f[1] == 'd' && f[2] == 'd' {
        proof {
            assert(f@ =~= add_tag());
        }
        Some(OperationType::Add)
    } else if f.len() == 6 && f[0] == 'r' && f[1] == 'e' && f[2] == 'm' && f[3] == 'o' && f[4]
        == 'v' && f[5] == 'e' {
        proof {
            assert(f@ =~= remove_tag());
        }
        Some(OperationType::Remove)
    } else {
        None
    }
}

impl TodoOperation {
    /// Encodes this record as its canonical single line: the twelve fields
    /// of [`field_seqs`] joined by the NUL character.
    pub fn encode(&self) -> (r: String)
        ensures
            r@ == encode_spec(self@),
    {
        let mut fields: Vec<String> = Vec::new();
        let tag = match self.operation {
            OperationType::Add => String::from_str("add"),
            OperationType::Remove => String::from_str("remove"),
        };
        proof {
            reveal_strlit("add");
            reveal_strlit("remove");
            assert(tag@ =~= tag_chars(self.operation));
        }
        fields.push(tag);
        fields.push(self.todo.engine.clone());
        fields.push(self.todo.rule_id.clone());
        fields.push(self.todo.file_path.clone());
        fields.push(decimal_string_i32(self.todo.range.start.line));
        fields.push(decimal_string_i32(self.todo.range.start.column));
        fields.push(decimal_string_i32(self.todo.range.end.line));
        fields.push(decimal_string_i32(self.todo.range.end.column));
        fields.push(self.todo.source.clone());
        fields.push(decimal_string_i64(self.todo.created_date));
        fields.push(decimal_string_i64(self.todo.warn_date));
        fields.push(decimal_string_i64(self.todo.error_date));
        proof {
            assert(fields@.map_values(|f: String| f@) =~~= field_seqs(self@));
        }
        join_strings(&fields, '\0')
    }

    /// Decodes one line, already split into characters, into a record, or
    /// reports the first failure in field order as [`decode_spec`] fixes it.
    pub fn decode_chars(line: &Vec<char>) -> (r: Result<TodoOperation, MalformedRecord>)
        ensures
            decode_result_matches(line@, r),
    {
        proof {
            assert(line@.take(line@.len() as int) =~= line@);
        }
        let fields = split_prefix(line, line.len(), '\0');
        let ghost fs = split_on(line@, '\0');
        if fields.len() != 12 {
            return Err(MalformedRecord::WrongFieldCount);
        }
        let operation = match tag_of_field(&fields[0]) {
            Some(op) => op,
            None => {
                return Err(MalformedRecord::UnknownOperation);
            },
        };
        let start_line = match parse_i32_field(&fields[4]) {
            Some(v) => v,
            None => {
                return Err(MalformedRecord::InvalidInteger(IntegerField::StartLine));
            },
        };
        let start_column = match parse_i32_field(&fields[5]) {
            Some(v) => v,
            None => {
                return Err(MalformedRecord::InvalidInteger(IntegerField::StartColumn));
            },
        };
        let end_line = match parse_i32_field(&fields[6]) {
            Some(v) => v,
            None => {
                return Err(MalformedRecord::InvalidInteger(IntegerField::EndLine));
            },
        };
        let end_column = match parse_i32_field(&fields[7]) {
            Some(v) => v,
            None => {
                return Err(MalformedRecord::InvalidInteger(IntegerField::EndColumn));
            },
        };
        let created_date = match parse_i64_field(&fields[9]) {
            Some(v) => v,
            None => {
                return Err(MalformedRecord::InvalidInteger(IntegerField::CreatedDate));
            },
        };
        let warn_date = match parse_i64_field(&fields[10]) {
            Some(v) => v,
            None => {
                return Err(MalformedRecord::InvalidInteger(IntegerField::WarnDate));
            },
        };
        let error_date = match parse_i64_field(&fields[11]) {
            Some(v) => v,
            None => {
                return Err(MalformedRecord::InvalidInteger(IntegerField::ErrorDate));
            },
        };
        let op = TodoOperation {
            operation,
            todo: TodoData {
                engine: string_of_chars(&fields[1]),
                rule_id: string_of_chars(&fields[2]),
                file_path: string_of_chars(&fields[3]),
                range: Range {
                    start: Position { line: start_line, column: start_column },
                    end: Position { line: end_line, column: end_column },
                },
                source: string_of_chars(&fields[8]),
                created_date,
                warn_date,
                error_date,
            },
        };
        proof {
            assert(tag_chars(operation) == add_tag() || tag_chars(operation) == remove_tag());
            assert(decode_spec(line@) matches Ok(m) && m =~= op@);
        }
        Ok(op)
    }

    /// Decodes one line of text into a record, or reports the first failure
    /// in field order as [`decode_spec`] fixes it.
    pub fn decode(line: &str) -> (r: Result<TodoOperation, MalformedRecord>)
        ensures
            decode_result_matches(line@, r),
    {
        let chars = chars_of_str(line);
        Self::decode_chars(&chars)
    }
}

} // verus!
