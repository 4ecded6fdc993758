//! JSON-lines text: one JSON value per line.
//!
//! A line runs up to and including its newline byte, the last line up to the
//! end of the text. A line that holds no JSON value (a blank line, a
//! malformed one) gives no row; the lines around it are not affected.

use crate::json::{json_value, parse_value};
use vstd::prelude::*;

verus! {

/// The byte that ends a line.
pub const NEWLINE: u8 = 10;

/// A batch is complete once this many bytes have been read for it.
pub const BATCH_BYTES: usize = 65536;

/// Where the line that starts at `from` ends: behind its newline, or at the
/// end of the text if no newline follows.
pub open spec fn line_end(text: Seq<u8>, from: int) -> int
    decreases text.len() - from,
{
    if from >= text.len() {
        text.len() as int
    } else if text[from] == NEWLINE {
        from + 1
    } else {
        line_end(text, from + 1)
    }
}

/// A line that starts inside the text ends behind its start and inside the
/// text.
pub proof fn line_end_bounds(text: Seq<u8>, from: int)
    requires
        0 <= from < text.len(),
    ensures
        from < line_end(text, from) <= text.len(),
    decreases text.len() - from,
{
    if text[from] != NEWLINE {
        if from + 1 < text.len() {
            line_end_bounds(text, from + 1);
        } else {
            assert(line_end(text, from + 1) == text.len());
        }
    }
}

/// The row that the line starting at `from` gives: the value it holds, or
/// nothing.
pub open spec fn line_rows(text: Seq<u8>, from: int) -> Seq<serde_json::Value> {
    match json_value(text.subrange(from, line_end(text, from))) {
        Some(value) => seq![value],
        None => Seq::empty(),
    }
}

/// The rows of all lines from `from` to the end of the text, in the order of
/// the lines.
pub open spec fn rows_from(text: Seq<u8>, from: int) -> Seq<serde_json::Value>
    decreases text.len() - from,
{
    if 0 <= from < text.len() {
        proof {
            line_end_bounds(text, from);
        }
        line_rows(text, from) + rows_from(text, line_end(text, from))
    } else {
        Seq::empty()
    }
}

/// Whether a batch that began at `start` goes on at `at`: there is text
/// left, and fewer than `BATCH_BYTES` bytes were read for it.
pub open spec fn batch_goes_on(text: Seq<u8>, start: int, at: int) -> bool {
    0 <= start <= at < text.len() && at - start < BATCH_BYTES
}

/// Where the batch that began at `start` and has come to `at` ends: at the
/// first line end from `at` on that lies `BATCH_BYTES` or more behind
/// `start`, or at the end of the text.
pub open spec fn batch_end(text: Seq<u8>, start: int, at: int) -> int
    decreases text.len() - at,
{
    if batch_goes_on(text, start, at) {
        proof {
            line_end_bounds(text, at);
        }
        batch_end(text, start, line_end(text, at))
    } else {
        at
    }
}

/// The rows that the batch which began at `start` holds from `at` on.
pub open spec fn batch_rows(text: Seq<u8>, start: int, at: int) -> Seq<serde_json::Value>
    decreases text.len() - at,
{
    if batch_goes_on(text, start, at) {
        proof {
            line_end_bounds(text, at);
        }
        line_rows(text, at) + batch_rows(text, start, line_end(text, at))
    } else {
        Seq::empty()
    }
}

/// A batch ends at or behind the place it has come to, and inside the text.
pub proof fn batch_end_bounds(text: Seq<u8>, start: int, at: int)
    requires
        0 <= start <= at <= text.len(),
    ensures
        at <= batch_end(text, start, at) <= text.len(),
        batch_goes_on(text, start, at) ==> at < batch_end(text, start, at),
    decreases text.len() - at,
{
    if batch_goes_on(text, start, at) {
        line_end_bounds(text, at);
        batch_end_bounds(text, start, line_end(text, at));
    }
}

/// A batch and what follows it make up what was left: the rows of a batch
/// from `at` on, followed by all rows behind the batch's end, are all rows
/// from `at` on.
pub proof fn batch_then_rest(text: Seq<u8>, start: int, at: int)
    requires
        0 <= start <= at <= text.len(),
    ensures
        batch_rows(text, start, at) + rows_from(text, batch_end(text, start, at)) == rows_from(
            text,
            at,
        ),
    decreases text.len() - at,
{
    if batch_goes_on(text, start, at) {
        let next = line_end(text, at);
        line_end_bounds(text, at);
        batch_then_rest(text, start, next);
        assert(batch_rows(text, start, at) + rows_from(text, batch_end(text, start, at))
            =~= line_rows(text, at) + (batch_rows(text, start, next) + rows_from(
            text,
            batch_end(text, start, next),
        )));
    } else {
        assert(batch_rows(text, start, at) + rows_from(text, at) =~= rows_from(text, at));
    }
}

/// Finds the end of the line that starts at `from`.
pub fn find_line_end(text: &[u8], from: usize) -> (end: usize)
    ensures
        end == line_end(text@, from as int),
        end <= text@.len(),
        from < text@.len() ==> from < end,
{
    if from >= text.len() {
        return text.len();
    }
    let mut at: usize = from;
    while at < text.len()
        invariant
            from <= at <= text@.len(),
            line_end(text@, at as int) == line_end(text@, from as int),
        decreases text@.len() - at,
    {
        if text[at] == NEWLINE {
            return at + 1;
        }
        at += 1;
    }
    at
}

/// Reads the line that starts at `from`: where it ends, and the value it
/// holds if it holds one.
fn read_line(text: &[u8], from: usize) -> (line: (usize, Option<serde_json::Value>))
    requires
        from < text@.len(),
    ensures
        line.0 == line_end(text@, from as int),
        from < line.0 <= text@.len(),
        line.1 == json_value(text@.subrange(from as int, line.0 as int)),
{
    let end = find_line_end(text, from);
    let value = parse_value(&text[from..end]);
    (end, value)
}

/// Reads on from `from` to the next line that gives a row. Returns the row
/// and where its line ends; at the end of the text, no row and the length
/// of the text.
pub fn read_row(text: &[u8], from: usize) -> (found: (usize, Option<serde_json::Value>))
    ensures
        rows_from(text@, from as int).len() > 0 ==> found.1 == Some(
            rows_from(text@, from as int)[0],
        ) && found.0 <= text@.len() && rows_from(text@, found.0 as int) == rows_from(
            text@,
            from as int,
        ).skip(1),
        rows_from(text@, from as int).len() == 0 ==> found.1 is None && found.0 == text@.len(),
{
    let mut at: usize = from;
    while at < text.len()
        invariant
            from <= at,
            rows_from(text@, at as int) == rows_from(text@, from as int),
        decreases text@.len() - at,
    {
        let (end, value) = read_line(text, at);
        if let Some(row) = value {
            proof {
                assert(rows_from(text@, at as int).skip(1) =~= rows_from(text@, end as int));
            }
            return (end, Some(row));
        }
        proof {
            assert(rows_from(text@, at as int) =~= rows_from(text@, end as int));
        }
        at = end;
    }
    (text.len(), None)
}

/// Reads one batch: the rows of the lines from `start` on, up to the first
/// line end that lies `BATCH_BYTES` or more behind `start`. Returns where
/// the batch ends and its rows. At or behind the end of the text the batch
/// is empty and ends where it starts.
pub fn read_batch(text: &[u8], start: usize) -> (batch: (usize, Vec<serde_json::Value>))
    ensures
        batch.0 == batch_end(text@, start as int, start as int),
        batch.1@ == batch_rows(text@, start as int, start as int),
        start < text@.len() ==> start < batch.0 <= text@.len(),
        start >= text@.len() ==> batch.0 == start && batch.1@.len() == 0,
{
    let mut rows: Vec<serde_json::Value> = Vec::new();
    let mut at: usize = start;
    while at < text.len() && at - start < BATCH_BYTES
        invariant
            start <= at,
            start < text@.len() ==> at <= text@.len(),
            start < at || rows@.len() == 0,
            batch_end(text@, start as int, at as int) == batch_end(
                text@,
                start as int,
                start as int,
            ),
            rows@ + batch_rows(text@, start as int, at as int) == batch_rows(
                text@,
                start as int,
                start as int,
            ),
        decreases text@.len() - at,
    {
        let ghost before = rows@;
        let (end, value) = read_line(text, at);
        if let Some(row) = value {
            rows.push(row);
        }
        proof {
            assert(rows@ =~= before + line_rows(text@, at as int));
            assert(rows@ + batch_rows(text@, start as int, end as int) =~= before + batch_rows(
                text@,
                start as int,
                at as int,
            ));
        }
        at = end;
    }
    proof {
        assert(rows@ + batch_rows(text@, start as int, at as int) =~= rows@);
    }
    (at, rows)
}

} // verus!
