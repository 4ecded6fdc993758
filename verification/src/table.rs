//! The table of row iterators that a script has begun.
//!
//! A script that reads row by row holds the number of an iterator, not the
//! iterator. The numbers are drawn at random; a number that is drawn twice
//! within one request is an error, however unlikely it is.

use crate::database::{JSONLinesDatabase, Position};
use crate::lines::{read_row, rows_from};
use crate::random::random_index;
use std::collections::HashMap;
use vstd::prelude::*;
use vstd::string::*;

verus! {

/// Why an operation on the table failed.
#[derive(Clone, Copy, PartialEq, Eq, Structural, Debug)]
pub enum TableError {
    /// The number drawn for a new iterator is held by another one.
    IndexTaken,
    /// No iterator has the number that the script presented.
    NoSuchIterator,
}

impl TableError {
    /// The text that stands for this error.
    pub open spec fn text(self) -> Seq<char> {
        match self {
            TableError::IndexTaken => "index for iterator already exists somehow??"@,
            TableError::NoSuchIterator => "no such iterator"@,
        }
    }

    /// Writes the text that stands for this error.
    pub fn message(&self) -> (text: String)
        ensures
            text@ == self.text(),
    {
        match self {
            TableError::IndexTaken => String::from_str(
                "index for iterator already exists somehow??",
            ),
            TableError::NoSuchIterator => String::from_str("no such iterator"),
        }
    }
}

/// The iterators of one request, each under its number. An iterator is the
/// place in the source's text behind the last row that it gave.
pub struct IteratorTable {
    iterators: HashMap<u32, Position>,
}

/// What beginning an iterator under `index` answers to a table that holds
/// `before`: the number, or `IndexTaken` where the number was held already.
pub open spec fn begun(before: Map<u32, Position>, index: u32) -> Result<u32, TableError> {
    if before.contains_key(index) {
        Err(TableError::IndexTaken)
    } else {
        Ok(index)
    }
}

impl View for IteratorTable {
    type V = Map<u32, Position>;

    closed spec fn view(&self) -> Map<u32, Position> {
        self.iterators@
    }
}

impl IteratorTable {
    /// A table without iterators.
    pub fn new() -> (table: Self)
        ensures
            table@ == Map::<u32, Position>::empty(),
    {
        Self { iterators: HashMap::new() }
    }

    /// Begins an iterator under the number `index`, at the start of the
    /// source. Where the number is held already this is an error, and the
    /// new iterator has taken the place of the one that held it.
    pub fn begin_at(&mut self, index: u32) -> (answer: Result<u32, TableError>)
        ensures
            final(self)@ == old(self)@.insert(index, Position { offset: 0 }),
            answer == begun(old(self)@, index),
    {
        broadcast use vstd::std_specs::hash::group_hash_axioms;

        match self.iterators.insert(index, Position { offset: 0 }) {
            None => Ok(index),
            Some(_) => Err(TableError::IndexTaken),
        }
    }

    /// Begins an iterator under a number that is drawn at random. Whatever
    /// number was drawn, the table and the answer are those of
    /// [`IteratorTable::begin_at`] for it.
    pub fn begin(&mut self) -> (answer: Result<u32, TableError>)
        ensures
            exists|index: u32|
                final(self)@ == old(self)@.insert(index, Position { offset: 0 }) && answer
                    == #[trigger] begun(old(self)@, index),
    {
        let index = random_index();
        let answer = self.begin_at(index);
        assert(answer == begun(old(self)@, index));
        answer
    }

    /// Gives the next row of the iterator with the number `index` and moves
    /// the iterator behind it; `None` where the iterator has come to the end
    /// of the source. A number that no iterator has is an error.
    pub fn next(&mut self, db: &JSONLinesDatabase, index: u32) -> (answer: Result<
        Option<serde_json::Value>,
        TableError,
    >)
        ensures
            !old(self)@.contains_key(index) ==> answer == Err::<
                Option<serde_json::Value>,
                TableError,
            >(TableError::NoSuchIterator) && final(self)@ == old(self)@,
            old(self)@.contains_key(index) ==> {
                let left = rows_from(db.text@, db.place(old(self)@[index]));
                &&& answer == Ok::<Option<serde_json::Value>, TableError>(
                    if left.len() > 0 {
                        Some(left[0])
                    } else {
                        None
                    },
                )
                &&& final(self)@.dom() == old(self)@.dom()
                &&& forall|other: u32|
                    other != index && old(self)@.contains_key(other) ==> final(self)@[other]
                        == old(self)@[other]
                &&& rows_from(db.text@, db.place(final(self)@[index])) == left.skip(
                    if left.len() > 0 {
                        1int
                    } else {
                        0int
                    },
                )
            },
    {
        broadcast use vstd::std_specs::hash::group_hash_axioms;

        let at = match self.iterators.get(&index) {
            Some(place) => *place,
            None => {
                return Err(TableError::NoSuchIterator);
            },
        };
        let len = db.text.len();
        let from = if at.offset <= len as u64 {
            at.offset as usize
        } else {
            len
        };
        let (behind, row) = read_row(db.text.as_slice(), from);
        self.iterators.insert(index, Position { offset: behind as u64 });
        proof {
            let left = rows_from(db.text@, from as int);
            assert(final(self)@.dom() =~= old(self)@.dom());
            if left.len() == 0 {
                assert(rows_from(db.text@, behind as int) =~= left.skip(0));
            }
        }
        Ok(row)
    }
}

} // verus!
