//! The data source that scripts read rows from.
//!
//! A source hands its rows out in batches. Where a reader stands is held in
//! a cursor that the source defines and that can travel as text. The rules
//! that every source keeps are part of the trait [`Database`]; the source of
//! this library, [`JSONLinesDatabase`], keeps them over the text of one
//! JSON-lines file.

use crate::decimal::{decimal, decimal_is_injective, from_decimal, to_decimal};
use crate::lines::{
    batch_end, batch_end_bounds, batch_rows, batch_then_rest, read_batch, read_row, rows_from,
};
use vstd::prelude::*;

verus! {

/// Why a source could not answer.
#[derive(Clone, Debug)]
pub enum ProviderError {
    /// The source could not be read; the text says why.
    Unavailable(String),
}

/// A source of rows that is read batch by batch.
pub trait Database: Sync + Send + 'static {
    /// Where a reader stands in the source.
    type Cursor;

    /// Whether this source answers whenever it is asked. A source that
    /// holds its rows does; one that has to fetch them may fail at any call,
    /// and says `false` here.
    spec fn always_answers(&self) -> bool;

    /// Where reading begins.
    spec fn start(&self) -> Self::Cursor;

    /// Whether nothing is left to read behind `cursor`.
    spec fn exhausted(&self, cursor: Self::Cursor) -> bool;

    /// The rows of the batch that is read at `cursor`.
    spec fn batch(&self, cursor: Self::Cursor) -> Seq<serde_json::Value>;

    /// Where a reader stands after the batch at `cursor`.
    spec fn advanced(&self, cursor: Self::Cursor) -> Self::Cursor;

    /// A bound on the number of batches that are still to be read at
    /// `cursor`.
    spec fn distance(&self, cursor: Self::Cursor) -> nat;

    /// The text that stands for `cursor`.
    spec fn encoded(cursor: Self::Cursor) -> Seq<char>;

    /// The cursor that `text` stands for, if it stands for one.
    spec fn decoded(text: Seq<char>) -> Option<Self::Cursor>;

    /// Reading comes to an end: a batch that is read before the end brings
    /// the end nearer, and at the end a batch is empty and the reader stays
    /// at the end.
    proof fn reading_ends(&self, cursor: Self::Cursor)
        ensures
            !self.exhausted(cursor) ==> self.distance(self.advanced(cursor)) < self.distance(
                cursor,
            ),
            self.exhausted(cursor) ==> self.batch(cursor).len() == 0 && self.exhausted(
                self.advanced(cursor),
            ),
    ;

    /// The text of a cursor stands for that cursor and for no other.
    proof fn text_stands_for_cursor(cursor: Self::Cursor)
        ensures
            Self::decoded(Self::encoded(cursor)) == Some(cursor),
    ;

    /// The cursor at which reading begins.
    fn begin(&self) -> (cursor: Result<Self::Cursor, ProviderError>)
        ensures
            self.always_answers() ==> cursor is Ok,
            cursor matches Ok(c) ==> c == self.start(),
    ;

    /// Reads the batch at `cursor` and moves the cursor behind it. When the
    /// source fails the cursor stays where it was.
    fn next(&self, cursor: &mut Self::Cursor) -> (rows: Result<
        Vec<serde_json::Value>,
        ProviderError,
    >)
        ensures
            self.always_answers() ==> rows is Ok,
            rows matches Ok(batch) ==> batch@ == self.batch(*old(cursor)) && *final(cursor)
                == self.advanced(*old(cursor)),
            rows is Err ==> *final(cursor) == *old(cursor),
    ;

    /// Whether anything is left to read behind `cursor`.
    fn more(&self, cursor: &Self::Cursor) -> (left: Result<bool, ProviderError>)
        ensures
            self.always_answers() ==> left is Ok,
            left matches Ok(any) ==> any == !self.exhausted(*cursor),
    ;

    /// Writes `cursor` as text.
    fn encode(cursor: &Self::Cursor) -> (text: String)
        ensures
            text@ == Self::encoded(*cursor),
    ;

    /// Reads a cursor from text; `None` where the text stands for none.
    fn decode(text: &str) -> (cursor: Option<Self::Cursor>)
        ensures
            cursor == Self::decoded(text@),
    ;
}

/// All rows that a reader gets who reads batch after batch from `cursor` to
/// the end, in the order in which it gets them.
pub open spec fn rows_read<D: Database>(db: &D, cursor: D::Cursor) -> Seq<serde_json::Value>
    decreases db.distance(cursor),
{
    if db.exhausted(cursor) {
        Seq::empty()
    } else {
        proof {
            db.reading_ends(cursor);
        }
        db.batch(cursor) + rows_read(db, db.advanced(cursor))
    }
}

/// Reads a source from its start to its end, batch after batch, and gives
/// all rows in the order in which they were read. The first failure of the
/// source ends the reading and is handed on; of a source that always
/// answers the rows are owed.
pub fn read_all<D: Database>(db: &D) -> (rows: Result<Vec<serde_json::Value>, ProviderError>)
    ensures
        db.always_answers() ==> rows is Ok,
        rows matches Ok(all) ==> all@ == rows_read(db, db.start()),
{
    let mut cursor = match db.begin() {
        Ok(cursor) => cursor,
        Err(error) => {
            return Err(error);
        },
    };
    let mut all: Vec<serde_json::Value> = Vec::new();
    loop
        invariant
            all@ + rows_read(db, cursor) == rows_read(db, db.start()),
        decreases db.distance(cursor),
    {
        match db.more(&cursor) {
            Err(error) => {
                return Err(error);
            },
            Ok(false) => {
                proof {
                    assert(all@ + rows_read(db, cursor) =~= all@);
                }
                return Ok(all);
            },
            Ok(true) => {},
        }
        let ghost at = cursor;
        let ghost held = all@;
        match db.next(&mut cursor) {
            Err(error) => {
                return Err(error);
            },
            Ok(batch) => {
                let mut batch = batch;
                all.append(&mut batch);
                proof {
                    db.reading_ends(at);
                    assert(all@ + rows_read(db, cursor) =~= held + rows_read(db, at));
                }
            },
        }
    }
}

/// A place in the text of a JSON-lines file: the number of bytes before it.
#[derive(Clone, Copy, PartialEq, Eq, Structural, Debug)]
pub struct Position {
    pub offset: u64,
}

/// The rows of one JSON-lines file: a file that holds one JSON value per
/// line. `path` names the file; the text is what was last loaded from it.
#[derive(Clone)]
pub struct JSONLinesDatabase {
    /// Where the file lies.
    pub path: String,
    /// The text of the file, as last loaded.
    pub text: Vec<u8>,
}

impl JSONLinesDatabase {
    /// A place inside the text or at its end: `offset`, or the end of the
    /// text where `offset` lies behind it.
    pub open spec fn place(&self, cursor: Position) -> int {
        if cursor.offset <= self.text@.len() {
            cursor.offset as int
        } else {
            self.text@.len() as int
        }
    }

    /// A handle on the file at `path`, with no text loaded yet.
    pub fn new(path: String) -> (db: Self)
        ensures
            db.path == path,
            db.text@ == Seq::<u8>::empty(),
    {
        Self { path, text: Vec::new() }
    }

    /// All rows of the file, in the order of its lines. There is one table,
    /// whatever name is asked for: the file.
    pub fn get_table(&self, _name: &str) -> (rows: Vec<serde_json::Value>)
        ensures
            rows@ == rows_from(self.text@, 0),
    {
        let mut rows: Vec<serde_json::Value> = Vec::new();
        let mut at: usize = 0;
        loop
            invariant
                at <= self.text@.len(),
                rows@ + rows_from(self.text@, at as int) == rows_from(self.text@, 0),
            decreases rows_from(self.text@, at as int).len(),
        {
            let ghost held = rows@;
            let ghost left = rows_from(self.text@, at as int);
            let (behind, row) = read_row(self.text.as_slice(), at);
            match row {
                Some(row) => {
                    rows.push(row);
                    proof {
                        assert(rows@ + left.skip(1) =~= held + left);
                    }
                    at = behind;
                },
                None => {
                    proof {
                        assert(rows@ + left =~= rows@);
                    }
                    return rows;
                },
            }
        }
    }

    /// The place that `cursor` stands for, as an index into the text.
    fn index(&self, cursor: &Position) -> (at: usize)
        ensures
            at == self.place(*cursor),
            at <= self.text@.len(),
    {
        let len = self.text.len();
        if cursor.offset <= len as u64 {
            cursor.offset as usize
        } else {
            len
        }
    }
}

impl Database for JSONLinesDatabase {
    type Cursor = Position;

    /// The text is at hand, so every question is answered.
    open spec fn always_answers(&self) -> bool {
        true
    }

    open spec fn start(&self) -> Position {
        Position { offset: 0 }
    }

    open spec fn exhausted(&self, cursor: Position) -> bool {
        self.place(cursor) >= self.text@.len()
    }

    open spec fn batch(&self, cursor: Position) -> Seq<serde_json::Value> {
        batch_rows(self.text@, self.place(cursor), self.place(cursor))
    }

    open spec fn advanced(&self, cursor: Position) -> Position {
        Position {
            offset: batch_end(self.text@, self.place(cursor), self.place(cursor)) as u64,
        }
    }

    open spec fn distance(&self, cursor: Position) -> nat {
        (self.text@.len() - self.place(cursor)) as nat
    }

    open spec fn encoded(cursor: Position) -> Seq<char> {
        decimal(cursor.offset as nat)
    }

    open spec fn decoded(text: Seq<char>) -> Option<Position> {
        if exists|n: u64| text == decimal(n as nat) {
            Some(Position { offset: choose|n: u64| text == decimal(n as nat) })
        } else {
            None
        }
    }

    proof fn reading_ends(&self, cursor: Position) {
        let at = self.place(cursor);
        batch_end_bounds(self.text@, at, at);
        assert(self.text@.len() == self.text.len());
    }

    proof fn text_stands_for_cursor(cursor: Position) {
        let text = decimal(cursor.offset as nat);
        let found = choose|n: u64| text == decimal(n as nat);
        decimal_is_injective(found as nat, cursor.offset as nat);
    }

    fn begin(&self) -> (cursor: Result<Position, ProviderError>) {
        Ok(Position { offset: 0 })
    }

    fn next(&self, cursor: &mut Position) -> (rows: Result<
        Vec<serde_json::Value>,
        ProviderError,
    >) {
        let at = self.index(cursor);
        let (end, batch) = read_batch(self.text.as_slice(), at);
        cursor.offset = end as u64;
        Ok(batch)
    }

    fn more(&self, cursor: &Position) -> (left: Result<bool, ProviderError>) {
        Ok(self.index(cursor) < self.text.len())
    }

    fn encode(cursor: &Position) -> (text: String) {
        to_decimal(cursor.offset)
    }

    fn decode(text: &str) -> (cursor: Option<Position>) {
        match from_decimal(text) {
            Some(offset) => {
                proof {
                    let found = choose|n: u64| text@ == decimal(n as nat);
                    decimal_is_injective(found as nat, offset as nat);
                }
                Some(Position { offset })
            },
            None => None,
        }
    }
}

/// Reading a JSON-lines source batch after batch from a cursor on gives the
/// rows of all lines behind the cursor's place, in the order of the lines:
/// the batches leave nothing out, double nothing and keep the order.
pub proof fn batches_give_rows_behind(db: &JSONLinesDatabase, cursor: Position)
    ensures
        rows_read(db, cursor) == rows_from(db.text@, db.place(cursor)),
    decreases db.distance(cursor),
{
    let text = db.text@;
    let at = db.place(cursor);
    assert(text.len() == db.text.len());
    if !db.exhausted(cursor) {
        db.reading_ends(cursor);
        batch_end_bounds(text, at, at);
        batch_then_rest(text, at, at);
        batches_give_rows_behind(db, db.advanced(cursor));
    }
}

/// Reading a JSON-lines source batch after batch from its start gives the
/// rows of all its lines, in the order of the lines.
pub proof fn batches_give_all_rows(db: &JSONLinesDatabase)
    ensures
        rows_read(db, db.start()) == rows_from(db.text@, 0),
{
    batches_give_rows_behind(db, db.start());
}

} // verus!
