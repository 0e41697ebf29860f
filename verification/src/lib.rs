//! Codec for "todo" maintenance records: each record describes one deferred
//! lint violation and is stored as a single NUL-delimited text line, so that a
//! manifest of records composes with line-oriented diff and merge tooling.
//!
//! The crate has two parts: the record codec, which turns one [`TodoOperation`]
//! into its canonical line and back, and the batch parser
//! ([`parser::parse_operations`]), which splits a whole document into lines,
//! discards merge-conflict marker lines, and decodes everything else.
use vstd::prelude::*;

pub mod codec;
pub mod num;
pub mod parser;
pub mod text;

verus! {

/// A cursor location in a source file.
#[derive(Debug, PartialEq, Eq, Structural, Clone, Copy)]
pub struct Position {
    pub line: i32,
    pub column: i32,
}

/// The span of source text a record refers to. No ordering between `start`
/// and `end` is enforced: the codec treats both as opaque coordinates.
#[derive(Debug, PartialEq, Eq, Structural, Clone, Copy)]
pub struct Range {
    pub start: Position,
    pub end: Position,
}

/// The payload of one deferred-violation record.
///
/// The free-form text fields must not contain the NUL character: NUL is the
/// field delimiter and there is no escaping mechanism.
#[derive(Debug, PartialEq)]
pub struct TodoData {
    pub engine: String,
    pub rule_id: String,
    pub file_path: String,
    pub range: Range,
    pub source: String,
    pub created_date: i64,
    pub warn_date: i64,
    pub error_date: i64,
}

/// What a record does to the todo set: add a violation or remove one.
#[derive(Debug, PartialEq, Eq, Structural, Clone, Copy)]
pub enum OperationType {
    Add,
    Remove,
}

/// One unit of work for the codec: an operation tag plus its payload.
#[derive(Debug, PartialEq)]
pub struct TodoOperation {
    pub operation: OperationType,
    pub todo: TodoData,
}

/// The mathematical value of a [`TodoData`]: the same fields with every text
/// field abstracted to its character sequence.
#[verifier::ext_equal]
pub ghost struct TodoDataModel {
    pub engine: Seq<char>,
    pub rule_id: Seq<char>,
    pub file_path: Seq<char>,
    pub range: Range,
    pub source: Seq<char>,
    pub created_date: i64,
    pub warn_date: i64,
    pub error_date: i64,
}

/// The mathematical value of a [`TodoOperation`].
#[verifier::ext_equal]
pub ghost struct TodoOperationModel {
    pub operation: OperationType,
    pub todo: TodoDataModel,
}

impl View for TodoData {
    type V = TodoDataModel;

    open spec fn view(&self) -> TodoDataModel {
        TodoDataModel {
            engine: self.engine@,
            rule_id: self.rule_id@,
            file_path: self.file_path@,
            range: self.range,
            source: self.source@,
            created_date: self.created_date,
            warn_date: self.warn_date,
            error_date: self.error_date,
        }
    }
}

impl View for TodoOperation {
    type V = TodoOperationModel;

    open spec fn view(&self) -> TodoOperationModel {
        TodoOperationModel { operation: self.operation, todo: self.todo@ }
    }
}

/// The integer fields of a record — the four range coordinates and the
/// three lifecycle dates — used to report which one failed to parse.
#[derive(Debug, PartialEq, Eq, Structural, Clone, Copy)]
pub enum IntegerField {
    StartLine,
    StartColumn,
    EndLine,
    EndColumn,
    CreatedDate,
    WarnDate,
    ErrorDate,
}

/// Why a line failed to decode. Decoding is all-or-nothing: any of these
/// aborts the decode of the line (and of the whole document, in batch
/// parsing).
#[derive(Debug, PartialEq, Eq, Structural, Clone, Copy)]
pub enum MalformedRecord {
    /// The line does not split into exactly twelve NUL-delimited fields.
    WrongFieldCount,
    /// The first field is neither `add` nor `remove`.
    UnknownOperation,
    /// The named integer field is not a base-10 signed integer in range.
    InvalidInteger(IntegerField),
}

/// Holds when `s` contains no NUL character, so `s` can stand verbatim as one
/// field of an encoded line.
pub open spec fn nul_free(s: Seq<char>) -> bool {
    crate::text::free_of(s, '\0')
}

/// A record is encodable losslessly exactly when none of its text fields
/// contains the field delimiter.
pub open spec fn model_valid(m: TodoOperationModel) -> bool {
    &&& nul_free(m.todo.engine)
    &&& nul_free(m.todo.rule_id)
    &&& nul_free(m.todo.file_path)
    &&& nul_free(m.todo.source)
}

} // verus!
