//! Batch parsing of a whole manifest document.
//!
//! A document is split into physical lines; every merge-conflict marker line
//! is discarded, and every other line must decode as one record. Decoding is
//! all-or-nothing: the first failing line aborts the whole parse with its
//! error, and no partial list is returned. This tolerates a document in
//! which a version-control merge left both sides of a conflict in place: all
//! records of both sides are kept, in order, with the marker lines silently
//! removed.
use crate::codec::decode_spec;
use crate::text::{chars_of_str, document_lines, lines_spec};
use crate::{MalformedRecord, TodoOperation, TodoOperationModel};
use vstd::prelude::*;

verus! {

/// Holds when `line` is a merge-conflict marker line: at least seven
/// characters long and starting with seven `<`, seven `=` or seven `>`.
/// Only the first seven characters are inspected; trailing text (such as a
/// branch name) is ignored. A line shorter than seven characters is never a
/// marker.
pub open spec fn is_marker_line(line: Seq<char>) -> bool {
    &&& line.len() >= 7
    &&& {
        ||| line.take(7) == seq!['<', '<', '<', '<', '<', '<', '<']
        ||| line.take(7) == seq!['=', '=', '=', '=', '=', '=', '=']
        ||| line.take(7) == seq!['>', '>', '>', '>', '>', '>', '>']
    }
}

/// Marker specificity: a line shorter than seven characters is never
/// treated as a marker, so it is always handed to the record decoder.
pub proof fn lemma_short_line_not_marker(line: Seq<char>)
    requires
        line.len() < 7,
    ensures
        !is_marker_line(line),
{
}

/// What parsing a sequence of lines yields: the records of every non-marker
/// line in order, or the error of the first line that fails to decode.
pub open spec fn parse_lines_spec(ls: Seq<Seq<char>>) -> Result<
    Seq<TodoOperationModel>,
    MalformedRecord,
>
    decreases ls.len(),
{
    if ls.len() == 0 {
        Ok(Seq::<TodoOperationModel>::empty())
    } else if is_marker_line(ls[0]) {
        parse_lines_spec(ls.drop_first())
    } else {
        match decode_spec(ls[0]) {
            Ok(m) => match parse_lines_spec(ls.drop_first()) {
                Ok(rest) => Ok(seq![m] + rest),
                Err(e) => Err(e),
            },
            Err(e) => Err(e),
        }
    }
}

/// What parsing a whole document yields: its lines, parsed in order.
pub open spec fn parse_spec(s: Seq<char>) -> Result<Seq<TodoOperationModel>, MalformedRecord> {
    parse_lines_spec(lines_spec(s))
}

/// The values of a sequence of records.
pub open spec fn models_of(ops: Seq<TodoOperation>) -> Seq<TodoOperationModel> {
    ops.map_values(|op: TodoOperation| op@)
}

/// Whether `line` is a merge-conflict marker line, per [`is_marker_line`].
fn is_marker(line: &Vec<char>) -> (r: bool)
    ensures
        r == is_marker_line(line@),
{
    if line.len() < 7 {
        return false;
    }
    let c = line[0];
    if c != '<' && c != '=' && c != '>' {
        return false;
    }
    if line[1] == c && line[2] == c && line[3] == c && line[4] == c && line[5] == c && line[6]
        == c {
        proof {
            assert(line@.take(7) =~= seq![c, c, c, c, c, c, c]);
        }
        true
    } else {
        false
    }
}

/// Parses a whole document into its records, in input order: marker lines
/// are discarded, every other line must decode, and the first decode
/// failure aborts the parse with that error and no partial result.
pub fn parse_operations(s: &str) -> (r: Result<Vec<TodoOperation>, MalformedRecord>)
    ensures
        match r {
            Ok(ops) => parse_spec(s@) == Ok::<Seq<TodoOperationModel>, MalformedRecord>(
                models_of(ops@),
            ),
            Err(e) => parse_spec(s@) == Err::<Seq<TodoOperationModel>, MalformedRecord>(e),
        },
{
    let chars = chars_of_str(s);
    let lines = document_lines(&chars);
    let ghost ls = lines_spec(s@);
    let mut ops: Vec<TodoOperation> = Vec::new();
    let mut k: usize = 0;
    proof {
        assert(ls.skip(0) =~~= ls);
        assert(models_of(ops@) =~= Seq::<TodoOperationModel>::empty());
    }
    while k < lines.len()
        invariant
            k <= lines@.len(),
            ls == lines_spec(s@),
            lines@.len() == ls.len(),
            forall|j: int| 0 <= j < ls.len() ==> #[trigger] lines@[j]@ == ls[j],
            match parse_lines_spec(ls.skip(k as int)) {
                Ok(rest) => parse_lines_spec(ls) == Ok::<Seq<TodoOperationModel>, MalformedRecord>(
                    models_of(ops@) + rest,
                ),
                Err(e) => parse_lines_spec(ls) == Err::<Seq<TodoOperationModel>, MalformedRecord>(
                    e,
                ),
            },
        decreases lines@.len() - k,
    {
        let ghost tail = ls.skip(k as int);
        proof {
            assert(tail[0] == ls[k as int]);
            assert(tail.drop_first() =~~= ls.skip(k as int + 1));
        }
        if !is_marker(&lines[k]) {
            match TodoOperation::decode_chars(&lines[k]) {
                Ok(op) => {
                    proof {
                        assert(models_of(ops@.push(op)) =~= models_of(ops@) + seq![op@]);
                        let r2 = parse_lines_spec(ls.skip(k as int + 1));
                        if r2 is Ok {
                            let rest2 = r2->Ok_0;
                            assert(models_of(ops@) + (seq![op@] + rest2) =~= (models_of(ops@)
                                + seq![op@]) + rest2);
                        }
                    }
                    ops.push(op);
                },
                Err(e) => {
                    return Err(e);
                },
            }
        }
        k = k + 1;
    }
    proof {
        assert(ls.skip(k as int) =~~= Seq::<Seq<char>>::empty());
        assert(models_of(ops@) + Seq::<TodoOperationModel>::empty() =~= models_of(ops@));
    }
    Ok(ops)
}

} // verus!
