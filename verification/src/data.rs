//! The record store: durable CRUD for expense records over an embedded
//! sqlite database, with an ephemeral in-memory variant for test isolation.
//!
//! The store's contents are modelled as the sequence of rows in insertion
//! order. Listing promises the rows only up to reordering, since the
//! backend gives no order. The model assumes what the design fixes: one
//! store instance is the only reader and writer of its backing database for
//! the life of the process.

use vstd::prelude::*;

use rusqlite::Error as SqliteError;

use crate::errors::Error;
use crate::record::{Expense, ExpenseView};

verus! {

#[verifier::external_type_specification]
#[verifier::external_body]
pub struct ExConnection(rusqlite::Connection);

#[verifier::external_type_specification]
#[verifier::external_body]
pub struct ExSqliteError(SqliteError);

/// The row schema, created anew when absent on every open.
const CREATE_TABLE_SQL: &'static str = "CREATE TABLE IF NOT EXISTS expenses (uuid BLOB NOT NULL PRIMARY KEY, name TEXT NOT NULL, tag TEXT NOT NULL, date TEXT NOT NULL, amount INTEGER NOT NULL)";

/// The views of a sequence of records.
pub open spec fn views_of(v: Seq<Expense>) -> Seq<ExpenseView> {
    v.map_values(|e: Expense| e@)
}

/// True when some row of `rows` carries the identifier `id`.
pub open spec fn has_id(rows: Seq<ExpenseView>, id: Seq<u8>) -> bool {
    exists|i: int| 0 <= i < rows.len() && rows[i].id == id
}

/// The record store: a sqlite connection together with the model of what
/// its expense table holds, in insertion order.
pub struct DataStore {
    conn: rusqlite::Connection,
    rows: Ghost<Seq<ExpenseView>>,
}

impl View for DataStore {
    type V = Seq<ExpenseView>;

    closed spec fn view(&self) -> Seq<ExpenseView> {
        self.rows@
    }
}

/// Relies on `rusqlite::Connection::open_in_memory` and
/// `Connection::execute`: a fresh, private in-memory database whose expense
/// table has just been created, so it holds no rows.
#[verifier::external_body]
fn open_memory_store() -> (r: Result<DataStore, SqliteError>)
    ensures
        r matches Ok(s) ==> s@ == Seq::<ExpenseView>::empty(),
{
    let conn = rusqlite::Connection::open_in_memory()?;
    conn.execute(CREATE_TABLE_SQL, [])?;
    Ok(DataStore { conn, rows: Ghost(Seq::empty()) })
}

/// Relies on `rusqlite::Connection::open` and `Connection::execute`: opens
/// or creates the database file at `path` and ensures the expense table
/// exists. The file may already hold rows, so nothing is stated of the
/// contents; the model stands for whatever the table holds.
#[verifier::external_body]
fn open_path_store(path: &str) -> (r: Result<DataStore, SqliteError>) {
    let conn = rusqlite::Connection::open(path)?;
    conn.execute(CREATE_TABLE_SQL, [])?;
    Ok(DataStore { conn, rows: Ghost(Seq::empty()) })
}

/// Relies on `rusqlite::Error`'s `Display` impl for the message text.
#[verifier::external_body]
fn db_error_text(e: &SqliteError) -> (r: String) {
    e.to_string()
}

/// Wraps a backend failure in the library's storage error.
fn wrap_db_error(e: SqliteError) -> (r: Error)
    ensures
        r is DBError,
{
    Error::DBError(db_error_text(&e))
}

impl DataStore {
    /// Relies on `Connection::execute` with an INSERT statement: on
    /// success the row is added; the uuid column is the primary key, so an
    /// id already present makes the insert fail; and a failed statement
    /// changes nothing.
    #[verifier::external_body]
    fn db_insert(&mut self, e: &Expense) -> (r: Result<(), SqliteError>)
        ensures
            r is Ok ==> final(self)@ == old(self)@.push(e@) && !has_id(old(self)@, e@.id),
            r is Err ==> final(self)@ == old(self)@,
            has_id(old(self)@, e@.id) ==> r is Err,
    {
        self.conn.execute(
            "INSERT INTO expenses (uuid, name, tag, date, amount) VALUES (?1, ?2, ?3, ?4, ?5)",
            (e.id(), e.name(), e.tag(), e.date(), e.amount()),
        )?;
        Ok(())
    }

    /// Relies on `Connection::prepare` and `Statement::query_map` with a
    /// SELECT statement: every stored row comes back exactly once, rebuilt
    /// as an `Expense`, in an order the backend does not fix.
    #[verifier::external_body]
    fn db_select_all(&self) -> (r: Result<Vec<Expense>, SqliteError>)
        ensures
            r matches Ok(v) ==> views_of(v@).to_multiset() == self@.to_multiset(),
    {
        let mut stmt = self.conn.prepare("SELECT uuid, name, tag, date, amount FROM expenses")?;
        let iter = stmt.query_map([], |row| {
            let date = row.get::<usize, String>(3)?;
            Ok(Expense::new(row.get(0)?, row.get(1)?, row.get(2)?, date.as_str(), row.get(4)?))
        })?;
        let mut out = Vec::new();
        for e in iter {
            out.push(e?);
        }
        Ok(out)
    }

    /// Relies on `Connection::execute` with a DELETE statement: on success
    /// every row is gone; a failed statement changes nothing.
    #[verifier::external_body]
    fn db_delete_all(&mut self) -> (r: Result<(), SqliteError>)
        ensures
            r is Ok ==> final(self)@ == Seq::<ExpenseView>::empty(),
            r is Err ==> final(self)@ == old(self)@,
    {
        self.conn.execute("DELETE FROM expenses", [])?;
        Ok(())
    }

    /// Opens the durable store backed by the database file at `path`,
    /// creating the file and the row schema when absent. The table may
    /// already hold rows from earlier sessions.
    pub fn new(path: &str) -> (r: Result<DataStore, Error>)
        ensures
            r matches Err(e) ==> e is DBError,
    {
        match open_path_store(path) {
            Ok(s) => Ok(s),
            Err(e) => Err(wrap_db_error(e)),
        }
    }

    /// Opens the ephemeral store: a fresh private in-memory database,
    /// starting empty, sharing nothing with the durable store.
    pub fn mock() -> (r: Result<DataStore, Error>)
        ensures
            r matches Ok(s) ==> s@ == Seq::<ExpenseView>::empty(),
            r matches Err(e) ==> e is DBError,
    {
        match open_memory_store() {
            Ok(s) => Ok(s),
            Err(e) => Err(wrap_db_error(e)),
        }
    }

    /// Appends one record as a new row. Fails with a storage error on a
    /// duplicate id or any backend failure, changing nothing; on success
    /// the stored rows are exactly the old rows plus this record.
    pub fn append_one(&mut self, exp: &Expense) -> (r: Result<(), Error>)
        ensures
            r is Ok ==> final(self)@ == old(self)@.push(exp@),
            r is Ok ==> !has_id(old(self)@, exp@.id),
            r is Err ==> final(self)@ == old(self)@,
            has_id(old(self)@, exp@.id) ==> r is Err,
            r matches Err(e) ==> e is DBError,
    {
        match self.db_insert(exp) {
            Ok(()) => Ok(()),
            Err(e) => Err(wrap_db_error(e)),
        }
    }

    /// Returns all stored rows as records, fully materialized, in
    /// backend-native order: the same rows as the model, up to reordering.
    pub fn list_all(&self) -> (r: Result<Vec<Expense>, Error>)
        ensures
            r matches Ok(v) ==> views_of(v@).to_multiset() == self@.to_multiset(),
            r matches Err(e) ==> e is DBError,
    {
        match self.db_select_all() {
            Ok(v) => Ok(v),
            Err(e) => Err(wrap_db_error(e)),
        }
    }

    /// Removes every stored row, leaving the store empty.
    pub fn remove_all(&mut self) -> (r: Result<(), Error>)
        ensures
            r is Ok ==> final(self)@ == Seq::<ExpenseView>::empty(),
            r is Err ==> final(self)@ == old(self)@,
            r matches Err(e) ==> e is DBError,
    {
        match self.db_delete_all() {
            Ok(()) => Ok(()),
            Err(e) => Err(wrap_db_error(e)),
        }
    }
}

/// A row just appended is among the rows: any listing whose rows are the
/// old rows plus `e`, in any order, holds a record equal to `e` by id with
/// identical name, tag, date and amount.
pub proof fn lemma_round_trip(before: Seq<ExpenseView>, listed: Seq<ExpenseView>, e: ExpenseView)
    requires
        listed.to_multiset() == before.push(e).to_multiset(),
    ensures
        exists|i: int| 0 <= i < listed.len() && listed[i] == e,
{
    broadcast use vstd::seq_lib::group_to_multiset_ensures;

    assert(before.push(e).to_multiset() =~= before.to_multiset().insert(e));
    assert(listed.to_multiset().count(e) > 0);
    assert(listed.contains(e));
}

/// The id of a row just appended is present afterwards, so a second append
/// with the same id meets the duplicate-id rejection of `append_one`.
pub proof fn lemma_push_has_id(rows: Seq<ExpenseView>, e: ExpenseView)
    ensures
        has_id(rows.push(e), e.id),
{
    assert(rows.push(e)[rows.len() as int] == e);
}

} // verus!
