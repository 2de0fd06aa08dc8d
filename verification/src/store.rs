//! Durable storage for rules and sender reputations, backed by SQLite
//! through `rusqlite`.
//!
//! The database holds two tables: `rules`, an append-only list of
//! `(keyword, score)` rows, and `senders`, one row per sender with its
//! cumulative spam-flag count and message count. Scores are stored in
//! milli-units as integers.
//!
//! Verified code sees the database through two abstractions: `db_rules`
//! names the rows of the `rules` table in id order, and `db_senders` names
//! the `senders` table as a map from sender id to
//! `(spam_flag_count, message_count)`. The contracts below describe each
//! statement's effect on these; they assume the database file is touched by
//! no one else while a connection to it is held.

use vstd::prelude::*;

verus! {

#[verifier::external_type_specification]
#[verifier::external_body]
pub struct ExConnection(rusqlite::Connection);

/// The rows of the `rules` table, in id order: `(keyword, score)` with the
/// score in milli-units. A freshly inserted row has the highest id, so an
/// insert appends here (rows are never deleted, so ids are never reused).
pub uninterp spec fn db_rules(c: rusqlite::Connection) -> Seq<(Seq<char>, int)>;

/// The rows of the `senders` table: sender id to
/// `(spam_flag_count, message_count)`.
pub uninterp spec fn db_senders(c: rusqlite::Connection) -> Map<Seq<char>, (int, int)>;

/// A failure of the backing store, with the underlying error rendered as text.
#[derive(Debug)]
pub struct StorageError {
    pub message: String,
}

/// The `senders` table after one recorded outcome for `id`: the message
/// count rises by one, the spam-flag count by one exactly when `flagged`,
/// and a missing row starts from zero on both counts.
pub open spec fn spec_upsert(
    m: Map<Seq<char>, (int, int)>,
    id: Seq<char>,
    flagged: bool,
) -> Map<Seq<char>, (int, int)> {
    let flag: int = if flagged {
        1
    } else {
        0
    };
    if m.contains_key(id) {
        m.insert(id, (m[id].0 + flag, m[id].1 + 1))
    } else {
        m.insert(id, (flag, 1))
    }
}

/// The reputation the ledger reports for `id`: its spam-flag count, or 0
/// for a sender with no record.
pub open spec fn spec_reputation(m: Map<Seq<char>, (int, int)>, id: Seq<char>) -> int {
    if m.contains_key(id) {
        m[id].0
    } else {
        0
    }
}

/// Relies on rusqlite's `Connection::open`: opens or creates the database
/// file at `path`. Nothing is assumed about the tables it holds.
#[verifier::external_body]
pub(crate) fn db_open(path: &str) -> (r: Result<rusqlite::Connection, StorageError>) {
    match rusqlite::Connection::open(path) {
        Ok(conn) => Ok(conn),
        Err(e) => Err(StorageError { message: format!("{}", e) }),
    }
}

/// Relies on rusqlite's `Connection::execute` running
/// `CREATE TABLE IF NOT EXISTS rules ...`, which creates the table when
/// missing and never drops or alters existing rows.
#[verifier::external_body]
pub(crate) fn db_create_rules_table(conn: &mut rusqlite::Connection) -> (r: Result<
    (),
    StorageError,
>)
    ensures
        db_rules(*final(conn)) == db_rules(*old(conn)),
        db_senders(*final(conn)) == db_senders(*old(conn)),
{
    match conn.execute(
        "CREATE TABLE IF NOT EXISTS rules (
            id INTEGER PRIMARY KEY,
            keyword TEXT NOT NULL,
            score INTEGER NOT NULL
        )",
        (),
    ) {
        Ok(_) => Ok(()),
        Err(e) => Err(StorageError { message: format!("{}", e) }),
    }
}

/// Relies on rusqlite's `Connection::execute` running
/// `CREATE TABLE IF NOT EXISTS senders ...`, which creates the table when
/// missing and never drops or alters existing rows.
#[verifier::external_body]
pub(crate) fn db_create_senders_table(conn: &mut rusqlite::Connection) -> (r: Result<
    (),
    StorageError,
>)
    ensures
        db_rules(*final(conn)) == db_rules(*old(conn)),
        db_senders(*final(conn)) == db_senders(*old(conn)),
{
    match conn.execute(
        "CREATE TABLE IF NOT EXISTS senders (
            user_id TEXT PRIMARY KEY,
            spam_score INTEGER DEFAULT 0,
            message_count INTEGER DEFAULT 0
        )",
        (),
    ) {
        Ok(_) => Ok(()),
        Err(e) => Err(StorageError { message: format!("{}", e) }),
    }
}

/// Relies on rusqlite's `Connection::execute` running a single
/// `INSERT INTO rules`: on success exactly the row `(keyword, score)` is
/// appended; a failed statement changes nothing.
#[verifier::external_body]
pub(crate) fn db_insert_rule(conn: &mut rusqlite::Connection, keyword: &str, score: i64) -> (r:
    Result<(), StorageError>)
    ensures
        r is Ok ==> db_rules(*final(conn)) == db_rules(*old(conn)).push(
            (keyword@, score as int),
        ),
        r is Err ==> db_rules(*final(conn)) == db_rules(*old(conn)),
        db_senders(*final(conn)) == db_senders(*old(conn)),
{
    match conn.execute("INSERT INTO rules (keyword, score) VALUES (?1, ?2)", (keyword, score)) {
        Ok(_) => Ok(()),
        Err(e) => Err(StorageError { message: format!("{}", e) }),
    }
}

/// Relies on rusqlite's `Connection::execute` running a single
/// `INSERT ... ON CONFLICT DO UPDATE` on `senders`: one atomic upsert that
/// starts a missing row at `(flag, 1)` and otherwise adds `(flag, 1)` to the
/// stored counts; a failed statement changes nothing.
#[verifier::external_body]
pub(crate) fn db_upsert_sender(conn: &mut rusqlite::Connection, user_id: &str, flagged: bool) -> (r:
    Result<(), StorageError>)
    ensures
        r is Ok ==> db_senders(*final(conn)) == spec_upsert(
            db_senders(*old(conn)),
            user_id@,
            flagged,
        ),
        r is Err ==> db_senders(*final(conn)) == db_senders(*old(conn)),
        db_rules(*final(conn)) == db_rules(*old(conn)),
{
    let flag: i64 = if flagged { 1 } else { 0 };
    match conn.execute(
        "INSERT INTO senders (user_id, spam_score, message_count)
         VALUES (?1, ?2, 1)
         ON CONFLICT(user_id) DO UPDATE
         SET spam_score = spam_score + ?2, message_count = message_count + 1",
        (user_id, flag),
    ) {
        Ok(_) => Ok(()),
        Err(e) => Err(StorageError { message: format!("{}", e) }),
    }
}

/// Relies on rusqlite's `Connection::query_row` reading one row of
/// `senders`: `Ok(Some(v))` is the stored spam-flag count of `user_id`,
/// `Ok(None)` means the sender has no row.
#[verifier::external_body]
pub(crate) fn db_query_sender_flags(conn: &rusqlite::Connection, user_id: &str) -> (r: Result<
    Option<i64>,
    StorageError,
>)
    ensures
        r matches Ok(Some(v)) ==> db_senders(*conn).contains_key(user_id@) && v as int
            == db_senders(*conn)[user_id@].0,
        r matches Ok(None) ==> !db_senders(*conn).contains_key(user_id@),
{
    match conn.query_row(
        "SELECT spam_score FROM senders WHERE user_id = ?1",
        (user_id,),
        |row| row.get(0),
    ) {
        Ok(v) => Ok(Some(v)),
        Err(rusqlite::Error::QueryReturnedNoRows) => Ok(None),
        Err(e) => Err(StorageError { message: format!("{}", e) }),
    }
}

/// The rows of the rule table as verified code models them: each keyword as
/// its character sequence, each score as a mathematical integer.
pub open spec fn rows_model(rows: Seq<(String, i64)>) -> Seq<(Seq<char>, int)> {
    rows.map_values(|p: (String, i64)| (p.0@, p.1 as int))
}

/// Relies on rusqlite's `prepare`/`query_map` running
/// `SELECT keyword, score FROM rules ORDER BY id`: on success the returned
/// rows are exactly the rule table's rows, in id order.
#[verifier::external_body]
pub(crate) fn db_load_rules(conn: &rusqlite::Connection) -> (r: Result<
    Vec<(String, i64)>,
    StorageError,
>)
    ensures
        r matches Ok(v) ==> rows_model(v@) == db_rules(*conn),
{
    let run = conn.prepare("SELECT keyword, score FROM rules ORDER BY id").and_then(|mut stmt| {
        let rows = stmt.query_map((), |row| Ok((row.get(0)?, row.get(1)?)))?;
        rows.collect()
    });
    match run {
        Ok(v) => Ok(v),
        Err(e) => Err(StorageError { message: format!("{}", e) }),
    }
}

} // verus!
