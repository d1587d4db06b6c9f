//! The word store: an SQLite database with one table of words per category.
//!
//! The store is reached through `rusqlite`. Nothing is assumed of what it
//! holds or answers: every answer is handed on as an [`Answer`], and the
//! builder checks each word before it takes it. What is known of an open
//! store is what this library did with it: where it was opened, and which
//! questions were put to it. The only questions it is ever asked are those
//! that draw one word.

use crate::category::WordCategory;
use crate::error::FluentError;
use crate::query::{is_sample_query, sample_query, sample_sql};
use crate::render::token_texts;
use vstd::prelude::*;

verus! {

/// `rusqlite::Connection`, an open connection to a database. Nothing is
/// known of its inside.
#[verifier::external_type_specification]
#[verifier::external_body]
pub struct ExConnection(rusqlite::Connection);

/// `rusqlite::Error`, the error of every `rusqlite` call. Nothing is known
/// of its inside.
#[verifier::external_type_specification]
#[verifier::external_body]
pub struct ExError(rusqlite::Error);

/// What the store gave in answer to one query.
#[derive(Debug)]
pub enum Answer {
    /// The first column of the first row, as text.
    Word(String),
    /// The query ran and selected no row.
    NoRows,
    /// The query could not be run, or its result was not text.
    Failed,
}

/// An open store: the connection, the location that it was opened at, and
/// the questions put to it since, in order. Only [`OpenStore::open`] makes
/// one, and only [`ask`] adds a question.
#[derive(Debug)]
pub struct OpenStore {
    handle: rusqlite::Connection,
    location: String,
    asked: Vec<String>,
}

/// What is known of an open store.
pub struct StoreRecord {
    /// The location that was handed to the call that opened it.
    pub location: Seq<char>,
    /// The queries that were put to it, oldest first.
    pub asked: Seq<Seq<char>>,
}

impl View for OpenStore {
    type V = StoreRecord;

    closed spec fn view(&self) -> StoreRecord {
        StoreRecord { location: self.location@, asked: token_texts(self.asked@) }
    }
}

/// `rusqlite::Connection::open`: opens the database at `location`, a path or
/// an SQLite URI. Whether it succeeds depends on what is on disk, so nothing
/// is claimed of the result.
#[verifier::external_body]
pub(crate) fn open_connection(location: &str) -> (opened: Result<
    rusqlite::Connection,
    rusqlite::Error,
>) {
    rusqlite::Connection::open(location)
}

/// `rusqlite::Connection::query_row` with no parameters, reading column 0 of
/// the first row as a `String`, for a query that draws one word. The result
/// depends on the database and on chance, so nothing is claimed of it.
///
/// Only such queries are admitted. They read and do not write, and their
/// one column is named by the query's own text, so that the error for a
/// value that is not text can be built: `rusqlite` panics on a column name
/// that is not valid UTF-8.
#[verifier::external_body]
pub(crate) fn query_first_text(connection: &rusqlite::Connection, sql: &str) -> (row: Result<
    String,
    rusqlite::Error,
>)
    requires
        is_sample_query(sql@),
{
    connection.query_row(sql, [], |row| row.get(0))
}

/// Tells `rusqlite::Error::QueryReturnedNoRows`, the error of a query that
/// selected nothing, from every other error. Nothing is claimed of the
/// result.
#[verifier::external_body]
pub(crate) fn is_no_rows(error: &rusqlite::Error) -> (no_rows: bool) {
    matches!(error, rusqlite::Error::QueryReturnedNoRows)
}

impl OpenStore {
    /// Opens the store at `location`. The store that comes back was opened
    /// at that location and has not been asked anything. Where the store
    /// cannot be opened the error is `StoreUnavailable`.
    pub fn open(location: &str) -> (r: Result<OpenStore, FluentError>)
        ensures
            r matches Ok(store) ==> store@ == (StoreRecord {
                location: location@,
                asked: Seq::empty(),
            }),
            r matches Err(error) ==> error == FluentError::StoreUnavailable,
    {
        match open_connection(location) {
            Ok(handle) => {
                let store = OpenStore { handle, location: location.to_owned(), asked: Vec::new() };
                assert(token_texts(store.asked@) == Seq::<Seq<char>>::empty());
                Ok(store)
            },
            Err(_) => Err(FluentError::StoreUnavailable),
        }
    }

    /// The queries that were put to the store, oldest first.
    pub fn questions(&self) -> (asked: &Vec<String>)
        ensures
            token_texts(asked@) == self@.asked,
    {
        &self.asked
    }
}

/// Asks the store for one word of the category with a length in
/// `min_length ..= max_length`: writes the query that draws it, puts it to
/// the store, notes it as asked, and sorts what comes back into the three
/// kinds of [`Answer`]. The query is noted whatever the answer is. No other
/// query is ever put to the store.
pub fn ask(
    store: &mut OpenStore,
    category: WordCategory,
    min_length: i32,
    max_length: i32,
) -> (answer: Answer)
    ensures
        final(store)@ == (StoreRecord {
            asked: old(store)@.asked.push(
                sample_query(category.table_name(), min_length as int, max_length as int),
            ),
            ..old(store)@
        }),
{
    let sql = sample_sql(category, min_length, max_length);
    let row = query_first_text(&store.handle, sql.as_str());
    proof {
        assert(token_texts(store.asked@.push(sql)) == token_texts(store.asked@).push(sql@));
    }
    store.asked.push(sql);
    match row {
        Ok(word) => Answer::Word(word),
        Err(error) => {
            if is_no_rows(&error) {
                Answer::NoRows
            } else {
                Answer::Failed
            }
        },
    }
}

} // verus!
