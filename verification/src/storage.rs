//! The boundary to SQLite, through the `rusqlite` crate.
//!
//! The functions here whose bodies are not verified each make one call into
//! `rusqlite`, and none of them promises anything of what comes back:
//! whether a call succeeds, and what a query finds, depends on the
//! database. The store decides what to do with every outcome in verified
//! code.

use vstd::prelude::*;
use crate::sql::SqlValue;

verus! {

/// `rusqlite::Connection`: an open database. Nothing is known of what it holds.
#[verifier::external_type_specification]
#[verifier::external_body]
pub struct ExConnection(rusqlite::Connection);

/// `rusqlite::Transaction`: a transaction in progress on a connection. It
/// is rolled back when it is dropped without a commit.
#[verifier::external_type_specification]
#[verifier::external_body]
pub struct ExTransaction<'conn>(rusqlite::Transaction<'conn>);

/// `rusqlite::Error`: why a call failed.
#[verifier::external_type_specification]
#[verifier::external_body]
pub struct ExError(rusqlite::Error);

/// `rusqlite::types::Value`: a value as SQLite binds it to a parameter.
#[verifier::external_type_specification]
#[verifier::external_body]
pub struct ExValue(rusqlite::types::Value);

/// A recipe as it is read from its table: identifier, title, link,
/// category, steps.
pub type RecipeColumns = (i64, String, String, Option<String>, Option<String>);

/// An ingredient as it is read from its table: identifier, name, owning
/// recipe, flag.
pub type IngredientColumns = (i64, String, Option<i64>, bool);

/// `rusqlite::Connection::open`: opens the database file at `path`, and
/// creates it where there is none.
#[verifier::external_body]
pub(crate) fn open_file(path: &str) -> Result<rusqlite::Connection, rusqlite::Error> {
    rusqlite::Connection::open(path)
}

/// `rusqlite::Connection::open_in_memory`: opens a database that lives in
/// memory and is gone when the connection is closed.
#[verifier::external_body]
pub(crate) fn open_memory() -> Result<rusqlite::Connection, rusqlite::Error> {
    rusqlite::Connection::open_in_memory()
}

/// `From<rusqlite::types::Null> for rusqlite::types::Value`: the value `NULL`.
#[verifier::external_body]
pub(crate) fn null_value() -> rusqlite::types::Value {
    rusqlite::types::Value::from(rusqlite::types::Null)
}

/// `From<i64> for rusqlite::types::Value`: an integer value.
#[verifier::external_body]
pub(crate) fn integer_value(i: i64) -> rusqlite::types::Value {
    rusqlite::types::Value::from(i)
}

/// `From<String> for rusqlite::types::Value`: a text value.
#[verifier::external_body]
pub(crate) fn text_value(s: String) -> rusqlite::types::Value {
    rusqlite::types::Value::from(s)
}

/// The value that SQLite binds for `v`.
pub(crate) fn bound(v: &SqlValue) -> rusqlite::types::Value {
    match v {
        SqlValue::Null => null_value(),
        SqlValue::Integer(i) => integer_value(*i),
        SqlValue::Text(s) => text_value(s.clone()),
    }
}

/// `rusqlite::Connection::execute`, with `rusqlite::params_from_iter`:
/// prepares the one statement in `sql`, binds `params` to its parameters in
/// their order and runs it. On success the number is that of the rows
/// changed, as SQLite counts them.
#[verifier::external_body]
pub(crate) fn execute(conn: &rusqlite::Connection, sql: &str, params: &Vec<SqlValue>) -> Result<
    usize,
    rusqlite::Error,
> {
    conn.execute(sql, rusqlite::params_from_iter(params.iter().map(bound)))
}

/// `rusqlite::Connection::prepare` and `rusqlite::Statement::query_map`:
/// runs the query in `sql`, which has no parameters, and reads each row it
/// finds as the five columns of a recipe.
#[verifier::external_body]
pub(crate) fn read_recipes(conn: &rusqlite::Connection, sql: &str) -> Result<
    Vec<RecipeColumns>,
    rusqlite::Error,
> {
    let mut query = conn.prepare(sql)?;
    let rows = query.query_map((), |row| RecipeColumns::try_from(row))?;
    rows.collect()
}

/// `rusqlite::Connection::prepare` and `rusqlite::Statement::query_map`:
/// runs the query in `sql`, which has no parameters, and reads each row it
/// finds as the four columns of an ingredient.
#[verifier::external_body]
pub(crate) fn read_ingredients(conn: &rusqlite::Connection, sql: &str) -> Result<
    Vec<IngredientColumns>,
    rusqlite::Error,
> {
    let mut query = conn.prepare(sql)?;
    let rows = query.query_map((), |row| IngredientColumns::try_from(row))?;
    rows.collect()
}

/// `rusqlite::Connection::transaction`: begins a transaction.
#[verifier::external_body]
pub(crate) fn begin(conn: &mut rusqlite::Connection) -> Result<
    rusqlite::Transaction<'_>,
    rusqlite::Error,
> {
    conn.transaction()
}

/// `Deref for rusqlite::Transaction`: the connection that the transaction
/// runs on.
#[verifier::external_body]
pub(crate) fn connection_of<'a>(tx: &'a rusqlite::Transaction<'_>) -> &'a rusqlite::Connection {
    tx
}

/// `rusqlite::Transaction::commit`: makes the changes of the transaction
/// permanent.
#[verifier::external_body]
pub(crate) fn commit(tx: rusqlite::Transaction<'_>) -> Result<(), rusqlite::Error> {
    tx.commit()
}

} // verus!
