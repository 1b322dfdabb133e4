//! The durable outbox: frames that were accepted for durable delivery and are
//! not yet known to be on the wire, kept in an SQLite table so that they
//! outlive the process.
//!
//! The table `message` has three columns: `id`, which SQLite assigns, the
//! `target` the frame was meant for, and the frame itself as `data`. The
//! outbox does not look into the frames.
//!
//! The database belongs to SQLite and may be shared with other handles, so
//! nothing here is proved about what it holds. What is proved is what the
//! library hands to it and what it makes of each answer.

use vstd::prelude::*;
use vstd::string::StringExecFns;

use crate::error::TolliverError;

verus! {

#[verifier::external_type_specification]
#[verifier::external_body]
pub struct ExSqliteConnection(rusqlite::Connection);

/// A message that has been saved to the outbox and not yet sent.
#[derive(Debug, PartialEq)]
pub struct UnsentMessage {
    /// The id that the outbox gave the record.
    pub id: i32,
    /// The address of the peer the message was meant for.
    pub peer: String,
    /// The whole frame, as it goes on the wire.
    pub message_bytes: Vec<u8>,
}

/// An outbox record as a mathematical value.
pub struct UnsentMessageView {
    pub id: int,
    pub peer: Seq<char>,
    pub message_bytes: Seq<u8>,
}

impl View for UnsentMessage {
    type V = UnsentMessageView;

    open spec fn view(&self) -> UnsentMessageView {
        UnsentMessageView {
            id: self.id as int,
            peer: self.peer@,
            message_bytes: self.message_bytes@,
        }
    }
}

impl DeepView for UnsentMessage {
    type V = UnsentMessageView;

    open spec fn deep_view(&self) -> UnsentMessageView {
        self@
    }
}

/// The record that a row of the table stands for.
pub open spec fn row_view(row: (i32, String, Vec<u8>)) -> UnsentMessageView {
    UnsentMessageView { id: row.0 as int, peer: row.1@, message_bytes: row.2@ }
}

/// The records that the rows of the table stand for, each in the place of its
/// row.
pub open spec fn rows_view(rows: Seq<(i32, String, Vec<u8>)>) -> Seq<UnsentMessageView> {
    rows.map_values(|row: (i32, String, Vec<u8>)| row_view(row))
}

/// Whether the records come in ascending order of their ids.
pub open spec fn ascending_by_id(records: Seq<UnsentMessageView>) -> bool {
    forall|i: int, j: int| 0 <= i < j < records.len() ==> records[i].id <= records[j].id
}

/// The statement that makes the table, unless it is there.
pub const CREATE_TABLE: &'static str =
    "CREATE TABLE IF NOT EXISTS message (id INTEGER PRIMARY KEY, target TEXT, data BLOB)";

/// The statement that stores one record and gives back its id.
pub const INSERT_MESSAGE: &'static str =
    "INSERT INTO message (target, data) VALUES (?1, ?2) RETURNING id";

/// The statement that removes the record with a given id.
pub const DELETE_MESSAGE: &'static str = "DELETE FROM message WHERE id = ?1";

/// The statement that lists every record, the oldest first.
pub const SELECT_MESSAGES: &'static str = "SELECT id, target, data FROM message ORDER BY id";

/// `rusqlite::Connection::open`: opens the database file at `path`, and makes
/// it if it is not there. Nothing is claimed about the outcome.
#[verifier::external_body]
fn sqlite_open(path: &str) -> (outcome: Result<rusqlite::Connection, rusqlite::Error>) {
    rusqlite::Connection::open(path)
}

/// `rusqlite::Connection::pragma_update`: sets the pragma `name` of the main
/// database to `value`. Nothing is claimed about the outcome.
#[verifier::external_body]
fn sqlite_pragma_update(db: &rusqlite::Connection, name: &str, value: &str) -> (outcome: Result<
    (),
    rusqlite::Error,
>) {
    db.pragma_update(None, name, value)
}

/// `rusqlite::Connection::execute`: runs the one statement `sql` with
/// `parameters` bound to its placeholders, in order. What comes back on
/// success is the number of rows that the statement changed, as SQLite
/// counts them; nothing is claimed about it.
#[verifier::external_body]
fn sqlite_execute(db: &rusqlite::Connection, sql: &str, parameters: &[i32]) -> (outcome: Result<
    usize,
    rusqlite::Error,
>) {
    db.execute(sql, rusqlite::params_from_iter(parameters.iter()))
}

/// `rusqlite::Connection::query_row`: runs the statement `sql` with `target`
/// and `data` bound to its two placeholders and reads the first column of the
/// first row that comes back as an `i32`. Nothing is claimed about the
/// outcome.
#[verifier::external_body]
fn sqlite_query_id(db: &rusqlite::Connection, sql: &str, target: &str, data: &[u8]) -> (outcome:
    Result<i32, rusqlite::Error>) {
    db.query_row(sql, (target, data), |row| row.get(0))
}

/// `rusqlite::Connection::prepare` and `rusqlite::Statement::query_map`: runs
/// the query `sql`, which takes no parameters, and reads the first three
/// columns of every row that comes back, in the order in which SQLite gives
/// the rows. Nothing is claimed about the outcome.
#[verifier::external_body]
fn sqlite_query_rows(db: &rusqlite::Connection, sql: &str) -> (outcome: Result<
    Vec<(i32, String, Vec<u8>)>,
    rusqlite::Error,
>) {
    let mut statement = db.prepare(sql)?;
    let rows = statement.query_map([], |row| Ok((row.get(0)?, row.get(1)?, row.get(2)?)))?;
    rows.collect()
}

/// What the library makes of an answer of the database: the value as it is,
/// or the failure as a `SqliteError`.
pub fn storage_result<T>(outcome: Result<T, rusqlite::Error>) -> (result: Result<T, TolliverError>)
    ensures
        outcome matches Ok(value) ==> result == Ok::<T, TolliverError>(value),
        outcome matches Err(cause) ==> result == Err::<T, TolliverError>(
            TolliverError::SqliteError(cause),
        ),
{
    match outcome {
        Ok(value) => Ok(value),
        Err(cause) => Err(TolliverError::SqliteError(cause)),
    }
}

/// What `deletion_result` says where the record to delete was not there.
pub open spec fn missing_record_text() -> Seq<char> {
    "The outbox held no record with the id to delete"@
}

/// What the library makes of the answer to a deletion, which is the number
/// of rows that went: the deletion succeeded exactly when one row went. That
/// no row went breaks the rule that a record is deleted once, by the one who
/// stored or found it, and is reported as a failure of the protocol.
pub fn deletion_result(outcome: Result<usize, rusqlite::Error>) -> (result: Result<
    (),
    TolliverError,
>)
    ensures
        result is Ok <==> outcome == Ok::<usize, rusqlite::Error>(1),
        outcome matches Err(cause) ==> result == Err::<(), TolliverError>(
            TolliverError::SqliteError(cause),
        ),
        outcome is Ok && result is Err ==> (result->Err_0 matches TolliverError::TolliverError(
            text,
        ) && text@ == missing_record_text()),
{
    match outcome {
        Ok(rows_affected) => {
            if rows_affected == 1 {
                Ok(())
            } else {
                Err(
                    TolliverError::TolliverError(
                        String::from_str("The outbox held no record with the id to delete"),
                    ),
                )
            }
        },
        Err(cause) => Err(TolliverError::SqliteError(cause)),
    }
}

/// The first place in `records`, which are in ascending order, whose record
/// does not come before `id`.
fn insertion_point(records: &Vec<UnsentMessage>, id: i32) -> (at: usize)
    requires
        ascending_by_id(records.deep_view()),
    ensures
        at <= records@.len(),
        forall|i: int| 0 <= i < at ==> records@[i].id < id,
        forall|i: int| at <= i < records@.len() ==> id <= records@[i].id,
{
    let mut at: usize = 0;
    while at < records.len() && records[at].id < id
        invariant
            at <= records@.len(),
            forall|i: int| 0 <= i < at ==> records@[i].id < id,
        decreases records@.len() - at,
    {
        at = at + 1;
    }
    assert forall|i: int| at <= i < records@.len() implies id <= records@[i].id by {
        assert(records.deep_view()[at as int].id <= records.deep_view()[i].id);
    }
    at
}

/// The records that the rows of the table stand for, in ascending order of
/// their ids whatever the order of the rows: each row becomes one record, and
/// every record comes from one row.
pub fn records_from_rows(rows: Vec<(i32, String, Vec<u8>)>) -> (records: Vec<UnsentMessage>)
    ensures
        ascending_by_id(records.deep_view()),
        records.deep_view().to_multiset() == rows_view(rows@).to_multiset(),
{
    let ghost all = rows_view(rows@);
    let mut remaining = rows;
    let mut records: Vec<UnsentMessage> = Vec::new();
    proof {
        records.deep_view().to_multiset_ensures();
    }
    loop
        invariant
            all == rows_view(rows@),
            ascending_by_id(records.deep_view()),
            all.to_multiset() == rows_view(remaining@).to_multiset().add(
                records.deep_view().to_multiset(),
            ),
        decreases remaining@.len(),
    {
        let ghost rows_before = rows_view(remaining@);
        let ghost records_before = records.deep_view();
        match remaining.pop() {
            None => {
                proof {
                    rows_before.to_multiset_ensures();
                }
                return records;
            },
            Some(row) => {
                let (id, peer, message_bytes) = row;
                let message = UnsentMessage { id, peer, message_bytes };
                let at = insertion_point(&records, id);
                records.insert(at, message);
                proof {
                    let rows_after = rows_view(remaining@);
                    assert(rows_before =~= rows_after.push(message@));
                    vstd::seq_lib::to_multiset_build(rows_after, message@);
                    assert(records.deep_view() =~= records_before.insert(at as int, message@));
                    vstd::seq_lib::to_multiset_insert(records_before, at as int, message@);
                }
            },
        }
    }
}

/// A handle on the outbox.
pub struct Outbox {
    db: rusqlite::Connection,
}

impl Outbox {
    /// Opens the outbox kept in the file at `path` and makes sure that its
    /// table is there.
    pub fn open(path: &str) -> (result: Result<Outbox, TolliverError>)
        ensures
            result matches Err(error) ==> error is SqliteError,
    {
        match storage_result(sqlite_open(path)) {
            Ok(db) => Self::new(db),
            Err(error) => Err(error),
        }
    }

    /// Makes an outbox of a database that is open, once its table is there.
    pub fn new(db: rusqlite::Connection) -> (result: Result<Outbox, TolliverError>)
        ensures
            result matches Err(error) ==> error is SqliteError,
    {
        match Self::init_db(&db) {
            Ok(()) => Ok(Outbox { db }),
            Err(error) => Err(error),
        }
    }

    /// Turns on write-ahead logging, so that several handles can work on the
    /// file, and makes the table unless it is there.
    fn init_db(db: &rusqlite::Connection) -> (result: Result<(), TolliverError>)
        ensures
            result matches Err(error) ==> error is SqliteError,
    {
        match storage_result(sqlite_pragma_update(db, "journal_mode", "WAL")) {
            Ok(()) => {},
            Err(error) => {
                return Err(error);
            },
        }
        let no_parameters: [i32; 0] = [];
        match storage_result(sqlite_execute(db, CREATE_TABLE, no_parameters.as_slice())) {
            Ok(_) => Ok(()),
            Err(error) => Err(error),
        }
    }

    /// Saves the message to disk and returns the saved id.
    pub fn save_to_disk(&mut self, peer: String, body_buf: &Vec<u8>) -> (result: Result<
        i32,
        TolliverError,
    >)
        ensures
            result matches Err(error) ==> error is SqliteError,
    {
        storage_result(
            sqlite_query_id(&self.db, INSERT_MESSAGE, peer.as_str(), body_buf.as_slice()),
        )
    }

    /// Removes the record with the id `message_id`. Succeeds only if the
    /// database says that exactly one record went. Fails with the database's
    /// error, or, where the database says that no record went, with a failure
    /// of the protocol that says so.
    pub fn delete_from_disk(&mut self, message_id: i32) -> (result: Result<(), TolliverError>)
        ensures
            result matches Err(error) ==> error is SqliteError || (
            error matches TolliverError::TolliverError(text) && text@ == missing_record_text()),
    {
        let parameters: [i32; 1] = [message_id];
        deletion_result(sqlite_execute(&self.db, DELETE_MESSAGE, parameters.as_slice()))
    }

    /// Returns the unsent messages, in ascending order of their ids.
    pub fn read_from_disk(&mut self) -> (result: Result<Vec<UnsentMessage>, TolliverError>)
        ensures
            result matches Ok(records) ==> ascending_by_id(records.deep_view()),
            result matches Err(error) ==> error is SqliteError,
    {
        match storage_result(sqlite_query_rows(&self.db, SELECT_MESSAGES)) {
            Ok(rows) => Ok(records_from_rows(rows)),
            Err(error) => Err(error),
        }
    }
}

} // verus!
