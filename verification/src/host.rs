//! The operations that the host offers a script: `database.begin`,
//! `database.next`, `database.more` and `database.send`.
//!
//! A script never holds a cursor itself. It holds sealed cursors, and each
//! operation that takes one opens it first: what this request did not seal
//! ends the operation with `InvalidCursor` before the data source is asked
//! anything. Whether the data source then answers is the source's matter,
//! unless it is one that always answers; what the host makes of each answer
//! is stated by the `answer_` functions.

use crate::authenticator::{CursorAuthenticator, SealedCursor};
use crate::database::{Database, ProviderError};
use crate::error::QueryError;
use crate::ringbuffer::{accepted, RingBuffer};
use vstd::prelude::*;

verus! {

/// The name under which the engine knows the operation that begins reading.
pub const OP_BEGIN: &'static str = "database.begin";

/// The name under which the engine knows the operation that reads a batch.
pub const OP_NEXT: &'static str = "database.next";

/// The name under which the engine knows the operation that asks whether
/// rows are left.
pub const OP_MORE: &'static str = "database.more";

/// The name under which the engine knows the operation that emits results.
pub const OP_SEND: &'static str = "database.send";

/// What `database.next` answers: the rows of one batch and the sealed cursor
/// behind them.
pub struct Page {
    pub cursor: SealedCursor,
    pub rows: Vec<serde_json::Value>,
}

/// The error that a failure of the data source ends an operation with.
pub open spec fn provider_failure(error: ProviderError) -> QueryError {
    match error {
        ProviderError::Unavailable(report) => QueryError::Provider(report),
    }
}

/// Whether `sealed` holds the text of `cursor` and the signature of that
/// text under the key of `auth`.
pub open spec fn seals<D: Database>(
    auth: &CursorAuthenticator,
    sealed: SealedCursor,
    cursor: D::Cursor,
) -> bool {
    &&& sealed.data@ == D::encoded(cursor)
    &&& sealed.sig@ == auth.signature(D::encoded(cursor))
}

/// What `database.begin` makes of the source's answer: the sealed cursor,
/// or the source's failure.
pub fn answer_begin<D: Database>(
    auth: &CursorAuthenticator,
    began: Result<D::Cursor, ProviderError>,
) -> (answer: Result<SealedCursor, QueryError>)
    ensures
        match began {
            Ok(cursor) => answer matches Ok(sealed) && seals::<D>(auth, sealed, cursor),
            Err(error) => answer == Err::<SealedCursor, QueryError>(provider_failure(error)),
        },
{
    match began {
        Ok(cursor) => Ok(auth.seal::<D>(&cursor)),
        Err(error) => Err(QueryError::from_provider_error(error)),
    }
}

/// What `database.next` makes of the source's answer: the rows with the
/// sealed cursor behind them, or the source's failure.
pub fn answer_next<D: Database>(
    auth: &CursorAuthenticator,
    behind: &D::Cursor,
    read: Result<Vec<serde_json::Value>, ProviderError>,
) -> (answer: Result<Page, QueryError>)
    ensures
        match read {
            Ok(rows) => answer matches Ok(page) && page.rows == rows && seals::<D>(
                auth,
                page.cursor,
                *behind,
            ),
            Err(error) => answer == Err::<Page, QueryError>(provider_failure(error)),
        },
{
    match read {
        Ok(rows) => Ok(Page { cursor: auth.seal::<D>(behind), rows }),
        Err(error) => Err(QueryError::from_provider_error(error)),
    }
}

/// What `database.more` makes of the source's answer.
pub fn answer_more(left: Result<bool, ProviderError>) -> (answer: Result<bool, QueryError>)
    ensures
        answer == match left {
            Ok(any) => Ok::<bool, QueryError>(any),
            Err(error) => Err::<bool, QueryError>(provider_failure(error)),
        },
{
    match left {
        Ok(any) => Ok(any),
        Err(error) => Err(QueryError::from_provider_error(error)),
    }
}

/// The source that `database.next` and `database.more` read from. Before
/// `database.begin` has brought a source there is none, and no cursor that
/// a script presents can be one of this request: the answer is
/// `InvalidCursor`.
pub fn source_at_hand<'a, D: Database>(source: Option<&'a D>) -> (answer: Result<
    &'a D,
    QueryError,
>)
    ensures
        answer == match source {
            Some(db) => Ok::<&D, QueryError>(db),
            None => Err::<&D, QueryError>(QueryError::InvalidCursor),
        },
{
    match source {
        Some(db) => Ok(db),
        None => Err(QueryError::InvalidCursor),
    }
}

/// `database.begin`: asks the source where reading begins and seals that
/// cursor.
pub fn database_begin<D: Database>(db: &D, auth: &CursorAuthenticator) -> (answer: Result<
    SealedCursor,
    QueryError,
>)
    ensures
        db.always_answers() ==> answer is Ok,
        answer matches Ok(sealed) ==> seals::<D>(auth, sealed, db.start()),
        answer matches Err(error) ==> error is Provider,
{
    answer_begin::<D>(auth, db.begin())
}

/// `database.next`: opens the cursor, reads the batch at it and seals the
/// cursor behind the batch. A cursor that this request did not seal ends
/// the operation with `InvalidCursor`, and the source is not asked.
pub fn database_next<D: Database>(
    db: &D,
    auth: &CursorAuthenticator,
    sealed: &SealedCursor,
) -> (answer: Result<Page, QueryError>)
    ensures
        match auth.opened::<D>(sealed.data@, sealed.sig@) {
            Ok(cursor) => match answer {
                Ok(page) => page.rows@ == db.batch(cursor) && seals::<D>(
                    auth,
                    page.cursor,
                    db.advanced(cursor),
                ),
                Err(error) => error is Provider && !db.always_answers(),
            },
            Err(_) => answer == Err::<Page, QueryError>(QueryError::InvalidCursor),
        },
{
    match auth.open::<D>(sealed) {
        Ok(cursor) => {
            let mut cursor = cursor;
            let read = db.next(&mut cursor);
            answer_next::<D>(auth, &cursor, read)
        },
        Err(error) => Err(QueryError::from_cursor_error(error)),
    }
}

/// `database.more`: opens the cursor and asks the source whether anything
/// is left behind it. A cursor that this request did not seal ends the
/// operation with `InvalidCursor`, and the source is not asked.
pub fn database_more<D: Database>(
    db: &D,
    auth: &CursorAuthenticator,
    sealed: &SealedCursor,
) -> (answer: Result<bool, QueryError>)
    ensures
        match auth.opened::<D>(sealed.data@, sealed.sig@) {
            Ok(cursor) => match answer {
                Ok(any) => any == !db.exhausted(cursor),
                Err(error) => error is Provider && !db.always_answers(),
            },
            Err(_) => answer == Err::<bool, QueryError>(QueryError::InvalidCursor),
        },
{
    match auth.open::<D>(sealed) {
        Ok(cursor) => answer_more(db.more(&cursor)),
        Err(error) => Err(QueryError::from_cursor_error(error)),
    }
}

/// `database.send`: puts `values` into the results buffer, in their order,
/// as far as there is room, and hands back those that did not fit. The
/// caller offers these again once the consumer has made room; none is
/// dropped and none overtakes another.
pub fn database_send<const S: usize>(
    results: &mut RingBuffer<serde_json::Value, S>,
    values: Vec<serde_json::Value>,
) -> (rest: Vec<serde_json::Value>)
    requires
        old(results).wf(),
    ensures
        final(results).wf(),
        final(results)@ == old(results)@.offer_many(S as int, values@),
        rest@ == values@.skip(
            accepted(S as int, old(results)@.pending.len() as int, values@.len() as int),
        ),
{
    let ghost before = results@;
    let mut rest: Vec<serde_json::Value> = Vec::new();
    proof {
        results.lemma_bounded();
        assert(before.offer_many(S as int, values@.take(0)).pending =~= before.pending);
    }
    for value in offered: values
        invariant
            results.wf(),
            before.pending.len() <= S,
            offered.seq() == values@,
            results@ == before.offer_many(S as int, values@.take(offered.index() as int)),
            rest@ == values@.take(offered.index() as int).skip(
                accepted(S as int, before.pending.len() as int, offered.index() as int),
            ),
    {
        let ghost seen = offered.index() as int;
        let ghost held = rest@;
        let ghost queue = results@;
        match results.produce_one(value) {
            None => {},
            Some(back) => {
                rest.push(back);
            },
        }
        proof {
            let room = accepted(S as int, before.pending.len() as int, seen);
            let grown = accepted(S as int, before.pending.len() as int, seen + 1);
            assert(values@.take(seen + 1) =~= values@.take(seen).push(value));
            if queue.has_room(S as int) {
                assert(room == seen && grown == seen + 1);
                assert(held =~= Seq::<serde_json::Value>::empty());
                assert(values@.take(seen + 1).take(grown) =~= values@.take(seen).take(
                    room,
                ).push(value));
                assert(results@.pending =~= before.offer_many(
                    S as int,
                    values@.take(seen + 1),
                ).pending);
                assert(rest@ =~= values@.take(seen + 1).skip(grown));
            } else {
                assert(grown == room);
                assert(values@.take(seen + 1).take(grown) =~= values@.take(seen).take(room));
                assert(rest@ =~= values@.take(seen + 1).skip(grown));
            }
        }
    }
    proof {
        assert(values@.take(values@.len() as int) =~= values@);
    }
    rest
}

} // verus!
