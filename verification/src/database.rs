//! The explorer database: schema, scan checkpoint and settings rows, and the
//! startup reconciliation of the stored snapshot with the database.

use vstd::prelude::*;

use rusqlite::{Connection, Transaction};

use crate::codec::{lemma_pow256_values, pow256};
use crate::setting::{
    decode_settings, lemma_settings_canonical, parse_settings, settings_encodable, settings_error_message,
    settings_wf, ScanSettings, SettingsView,
};
use crate::text::decimal;

verus! {

#[verifier::external_type_specification]
#[verifier::external_body]
pub struct ExConnection(rusqlite::Connection);

#[verifier::external_type_specification]
#[verifier::external_body]
pub struct ExTransaction<'conn>(rusqlite::Transaction<'conn>);

#[verifier::external_type_specification]
#[verifier::external_body]
pub struct ExSqlError(rusqlite::Error);

// What the wrappers below return depends on the database file and on
// SQLite. They claim only what rusqlite's own code decides: with the
// `fallible_uint` feature an unsigned integer above `i64::MAX` is refused
// when it is bound as a parameter, and a column read as an unsigned integer
// gives a value of at most `i64::MAX`.

/// `Connection::execute` of a statement without parameters; the row count
/// or SQLite's error, as the database state decides.
#[verifier::external_body]
fn execute_plain(conn: &Connection, sql: &str) -> (r: Result<(usize, Ghost<Seq<char>>), rusqlite::Error>)
    ensures
        r matches Ok((_, g)) ==> g@ == sql@,
{
    let n = conn.execute(sql, [])?;
    Ok((n, Ghost(sql@)))
}

/// `Connection::execute` with a text parameter `?1` and an integer
/// parameter `?2`. Claimed: an integer above `i64::MAX` gives an error
/// (the statement either does not take two parameters, which rusqlite
/// refuses, or binding the integer fails). A success echoes the statement,
/// key and integer handed over.
#[verifier::external_body]
fn execute_text_integer(conn: &Connection, sql: &str, key: &str, value: u64) -> (r: Result<
    (usize, Ghost<(Seq<char>, Seq<char>, u64)>),
    rusqlite::Error,
>)
    ensures
        value > i64::MAX ==> r is Err,
        r matches Ok((_, g)) ==> g@ == (sql@, key@, value),
{
    let n = conn.execute(sql, (key, value))?;
    Ok((n, Ghost((sql@, key@, value))))
}

/// `Connection::execute` with a text parameter `?1` and a blob parameter `?2`.
#[verifier::external_body]
fn execute_text_blob(conn: &Connection, sql: &str, key: &str, value: &[u8]) -> Result<
    usize,
    rusqlite::Error,
> {
    conn.execute(sql, (key, value))
}

/// `Connection::query_row` reading column 0 of the first row as an
/// unsigned integer. Claimed: the value read is at most `i64::MAX`; a
/// success echoes the statement handed over.
#[verifier::external_body]
fn query_first_integer(conn: &Connection, sql: &str) -> (r: Result<(u64, Ghost<Seq<char>>), rusqlite::Error>)
    ensures
        r matches Ok((v, _)) ==> v <= i64::MAX,
        r matches Ok((_, g)) ==> g@ == sql@,
{
    let v = conn.query_row(sql, [], |row| row.get(0))?;
    Ok((v, Ghost(sql@)))
}

/// `Connection::query_row` with a text parameter `?1`, reading column 0 of
/// the first row as an unsigned integer; `None` when no row matches
/// (`OptionalExtension::optional`). Claimed: a value read is at most
/// `i64::MAX`; a success echoes the statement and key handed over.
#[verifier::external_body]
pub(crate) fn query_integer_by_key(conn: &Connection, sql: &str, key: &str) -> (r: Result<
    (Option<u64>, Ghost<(Seq<char>, Seq<char>)>),
    rusqlite::Error,
>)
    ensures
        r matches Ok((Some(v), _)) ==> v <= i64::MAX,
        r matches Ok((_, g)) ==> g@ == (sql@, key@),
{
    let v = rusqlite::OptionalExtension::optional(conn.query_row(sql, [key], |row| row.get(0)))?;
    Ok((v, Ghost((sql@, key@))))
}

/// `Connection::query_row` with a text parameter `?1`, reading column 0 of
/// the first row as a blob; `None` when no row matches
/// (`OptionalExtension::optional`).
#[verifier::external_body]
fn query_blob_by_key(conn: &Connection, sql: &str, key: &str) -> Result<Option<Vec<u8>>, rusqlite::Error> {
    rusqlite::OptionalExtension::optional(conn.query_row(sql, [key], |row| row.get(0)))
}

/// `Connection::prepare` and `Statement::query_map` without parameters,
/// collecting column 0 of every row as text; a success echoes the statement
/// handed over.
#[verifier::external_body]
fn query_texts(conn: &Connection, sql: &str) -> (r: Result<(Vec<String>, Ghost<Seq<char>>), rusqlite::Error>)
    ensures
        r matches Ok((_, g)) ==> g@ == sql@,
{
    let mut stmt = conn.prepare(sql)?;
    let rows = stmt.query_map([], |row| row.get(0))?;
    let out: Result<Vec<String>, rusqlite::Error> = rows.collect();
    Ok((out?, Ghost(sql@)))
}

/// `Connection::execute_batch`: runs several statements.
#[verifier::external_body]
fn execute_batch(conn: &Connection, sql: &str) -> Result<(), rusqlite::Error> {
    conn.execute_batch(sql)
}

/// `Connection::pragma_update` of a pragma of the main schema to a text
/// value.
#[verifier::external_body]
fn pragma_update_text(conn: &Connection, name: &str, value: &str) -> Result<(), rusqlite::Error> {
    conn.pragma_update(None, name, value)
}

/// `Connection::busy_timeout` of `secs` seconds; rusqlite panics when the
/// milliseconds do not fit an `i32`, so `secs` is at most 2_147_483.
#[verifier::external_body]
fn busy_timeout_secs(conn: &Connection, secs: u64) -> Result<(), rusqlite::Error>
    requires
        secs <= 2_147_483,
{
    conn.busy_timeout(std::time::Duration::from_secs(secs))
}

/// `Connection::transaction`: begins a deferred transaction.
#[verifier::external_body]
fn begin_transaction(conn: &mut Connection) -> Result<Transaction<'_>, rusqlite::Error> {
    conn.transaction()
}

/// `Transaction::commit`.
#[verifier::external_body]
fn commit_transaction(tx: Transaction<'_>) -> Result<(), rusqlite::Error> {
    tx.commit()
}

/// The connection a transaction runs on (`Deref for Transaction`).
#[verifier::external_body]
pub(crate) fn transaction_connection<'a>(tx: &'a Transaction<'_>) -> &'a Connection {
    tx
}


/// The `scan_status` key of the durable checkpoint.
pub fn height_key() -> (r: &'static str)
    ensures
        r@ == "height"@,
{
    "height"
}

/// The `scan_status` key of the serialized settings snapshot.
pub fn settings_key() -> (r: &'static str)
    ensures
        r@ == "settings"@,
{
    "settings"
}

/// The lookup of a `scan_status` value by its key `?1`.
pub fn status_select_sql() -> (r: &'static str)
    ensures
        r@ == "SELECT v FROM scan_status WHERE k = ?1"@,
{
    "SELECT v FROM scan_status WHERE k = ?1"
}

/// The insert or update of the `scan_status` value `?2` under the key `?1`.
pub fn status_upsert_sql() -> (r: &'static str)
    ensures
        r@ == "INSERT INTO scan_status (k, v) VALUES (?1, ?2) ON CONFLICT(k) DO UPDATE SET v = excluded.v"@,
{
    "INSERT INTO scan_status (k, v) VALUES (?1, ?2) ON CONFLICT(k) DO UPDATE SET v = excluded.v"
}

/// The largest account id, 0 when there is none.
pub fn max_account_id_sql() -> (r: &'static str)
    ensures
        r@ == "SELECT IFNULL(MAX(id), 0) FROM account"@,
{
    "SELECT IFNULL(MAX(id), 0) FROM account"
}

/// The highest height of the transfer and DeFi rows, 0 when there is none.
pub fn legacy_height_sql() -> (r: &'static str)
    ensures
        r@ == "SELECT MAX(height) FROM (SELECT IFNULL(MAX(height), 0) AS height FROM coin_transfer UNION ALL SELECT IFNULL(MAX(height), 0) AS height FROM defi_operate)"@,
{
    "SELECT MAX(height) FROM (SELECT IFNULL(MAX(height), 0) AS height FROM coin_transfer UNION ALL SELECT IFNULL(MAX(height), 0) AS height FROM defi_operate)"
}

/// The addresses of all accounts, by id.
pub fn account_addresses_sql() -> (r: &'static str)
    ensures
        r@ == "SELECT address FROM account ORDER BY id"@,
{
    "SELECT address FROM account ORDER BY id"
}

/// The id of the account whose address is `?1`.
pub fn account_id_sql() -> (r: &'static str)
    ensures
        r@ == "SELECT id FROM account WHERE address = ?1"@,
{
    "SELECT id FROM account WHERE address = ?1"
}

/// The connection settings: write-ahead journal, temporary tables in
/// memory, a 64 MiB page cache and checkpoints every 1000 pages.
pub fn connection_pragmas_sql() -> (r: &'static str)
    ensures
        r@ == "PRAGMA journal_mode=WAL; PRAGMA temp_store=MEMORY; PRAGMA cache_size=-65536; PRAGMA wal_autocheckpoint=1000;"@,
{
    "PRAGMA journal_mode=WAL; PRAGMA temp_store=MEMORY; PRAGMA cache_size=-65536; PRAGMA wal_autocheckpoint=1000;"
}

/// The statements that create the explorer schema, in order: accounts,
/// transfers, DeFi operations, created assets, deployed and updated
/// contracts, each with its index, and the `scan_status` table. Each creates
/// only what does not exist yet.
pub open spec fn explorer_ddl() -> Seq<Seq<char>> {
    seq![
        "CREATE TABLE IF NOT EXISTS `account` (
            id                INTEGER PRIMARY KEY AUTOINCREMENT,
            address           TEXT NOT NULL,
            minted_diamond    INTEGER NOT NULL,
            block_reward      INTEGER NOT NULL,
            used_fee          REAL NOT NULL,
            timestamp         INTEGER NOT NULL
        )"@,
        "CREATE UNIQUE INDEX IF NOT EXISTS address on account (address)"@,
        "CREATE TABLE IF NOT EXISTS `coin_transfer` (
            id                INTEGER PRIMARY KEY AUTOINCREMENT,
            height            INTEGER NOT NULL,
            from_aid          INTEGER NOT NULL,
            to_aid            INTEGER NOT NULL,
            coin_type         INTEGER NOT NULL,
            coin_amt          INTEGER NOT NULL
        )"@,
        "CREATE INDEX IF NOT EXISTS acc_id on coin_transfer (from_aid, to_aid)"@,
        "CREATE TABLE IF NOT EXISTS `defi_operate` (
            id                INTEGER PRIMARY KEY AUTOINCREMENT,
            height            INTEGER NOT NULL,
            kind              INTEGER NOT NULL,
            aid1              INTEGER NOT NULL,
            aid2              INTEGER NOT NULL,
            tarid             BLOB NOT NULL,
            data              TEXT NOT NULL
        )"@,
        "CREATE INDEX IF NOT EXISTS acc2_id on defi_operate (aid1, aid2)"@,
        "CREATE TABLE IF NOT EXISTS `asset_create` (
            serial            INTEGER PRIMARY KEY,
            height            INTEGER NOT NULL,
            issuer_aid        INTEGER NOT NULL,
            ticket            TEXT NOT NULL,
            name              TEXT NOT NULL,
            decimal           INTEGER NOT NULL,
            supply            TEXT NOT NULL,
            protocol_cost     TEXT NOT NULL
        )"@,
        "CREATE INDEX IF NOT EXISTS asset_create_height on asset_create (height DESC, serial DESC)"@,
        "CREATE TABLE IF NOT EXISTS `contract_deploy` (
            address           TEXT PRIMARY KEY,
            height            INTEGER NOT NULL,
            deployer_aid      INTEGER NOT NULL,
            nonce             INTEGER NOT NULL,
            code_size         INTEGER NOT NULL,
            protocol_cost     TEXT NOT NULL
        )"@,
        "CREATE INDEX IF NOT EXISTS contract_deploy_height on contract_deploy (height DESC, address DESC)"@,
        "CREATE TABLE IF NOT EXISTS `contract_update` (
            id                INTEGER PRIMARY KEY AUTOINCREMENT,
            address           TEXT NOT NULL,
            height            INTEGER NOT NULL,
            updater_aid       INTEGER NOT NULL,
            edit_size          INTEGER NOT NULL,
            protocol_cost     TEXT NOT NULL
        )"@,
        "CREATE INDEX IF NOT EXISTS contract_update_height on contract_update (height DESC, id DESC)"@,
        "CREATE TABLE IF NOT EXISTS `scan_status` (
            k                 TEXT PRIMARY KEY,
            v                 INTEGER NOT NULL
        )"@,
    ]
}

/// The schema statements of `explorer_ddl`, in order.
pub fn ddl_statements() -> (r: Vec<&'static str>)
    ensures
        r@.len() == explorer_ddl().len(),
        forall|i: int| 0 <= i < r@.len() ==> #[trigger] r@[i]@ == explorer_ddl()[i],
{
    let mut v: Vec<&'static str> = Vec::new();
    v.push("CREATE TABLE IF NOT EXISTS `account` (
            id                INTEGER PRIMARY KEY AUTOINCREMENT,
            address           TEXT NOT NULL,
            minted_diamond    INTEGER NOT NULL,
            block_reward      INTEGER NOT NULL,
            used_fee          REAL NOT NULL,
            timestamp         INTEGER NOT NULL
        )");
    v.push("CREATE UNIQUE INDEX IF NOT EXISTS address on account (address)");
    v.push("CREATE TABLE IF NOT EXISTS `coin_transfer` (
            id                INTEGER PRIMARY KEY AUTOINCREMENT,
            height            INTEGER NOT NULL,
            from_aid          INTEGER NOT NULL,
            to_aid            INTEGER NOT NULL,
            coin_type         INTEGER NOT NULL,
            coin_amt          INTEGER NOT NULL
        )");
    v.push("CREATE INDEX IF NOT EXISTS acc_id on coin_transfer (from_aid, to_aid)");
    v.push("CREATE TABLE IF NOT EXISTS `defi_operate` (
            id                INTEGER PRIMARY KEY AUTOINCREMENT,
            height            INTEGER NOT NULL,
            kind              INTEGER NOT NULL,
            aid1              INTEGER NOT NULL,
            aid2              INTEGER NOT NULL,
            tarid             BLOB NOT NULL,
            data              TEXT NOT NULL
        )");
    v.push("CREATE INDEX IF NOT EXISTS acc2_id on defi_operate (aid1, aid2)");
    v.push("CREATE TABLE IF NOT EXISTS `asset_create` (
            serial            INTEGER PRIMARY KEY,
            height            INTEGER NOT NULL,
            issuer_aid        INTEGER NOT NULL,
            ticket            TEXT NOT NULL,
            name              TEXT NOT NULL,
            decimal           INTEGER NOT NULL,
            supply            TEXT NOT NULL,
            protocol_cost     TEXT NOT NULL
        )");
    v.push("CREATE INDEX IF NOT EXISTS asset_create_height on asset_create (height DESC, serial DESC)");
    v.push("CREATE TABLE IF NOT EXISTS `contract_deploy` (
            address           TEXT PRIMARY KEY,
            height            INTEGER NOT NULL,
            deployer_aid      INTEGER NOT NULL,
            nonce             INTEGER NOT NULL,
            code_size         INTEGER NOT NULL,
            protocol_cost     TEXT NOT NULL
        )");
    v.push("CREATE INDEX IF NOT EXISTS contract_deploy_height on contract_deploy (height DESC, address DESC)");
    v.push("CREATE TABLE IF NOT EXISTS `contract_update` (
            id                INTEGER PRIMARY KEY AUTOINCREMENT,
            address           TEXT NOT NULL,
            height            INTEGER NOT NULL,
            updater_aid       INTEGER NOT NULL,
            edit_size          INTEGER NOT NULL,
            protocol_cost     TEXT NOT NULL
        )");
    v.push("CREATE INDEX IF NOT EXISTS contract_update_height on contract_update (height DESC, id DESC)");
    v.push("CREATE TABLE IF NOT EXISTS `scan_status` (
            k                 TEXT PRIMARY KEY,
            v                 INTEGER NOT NULL
        )");
    v
}

/// Creates the explorer tables and indexes that do not exist yet, in one
/// transaction: runs the statements of `explorer_ddl` in order and commits;
/// existing tables are kept as they are. A success gives back the
/// statements run, in order.
pub fn create_tables(conn: &mut Connection) -> (r: Result<Ghost<Seq<Seq<char>>>, rusqlite::Error>)
    ensures
        r matches Ok(g) ==> g@ == explorer_ddl(),
{
    let statements = ddl_statements();
    let tx = begin_transaction(conn)?;
    let c = transaction_connection(&tx);
    let mut run: Ghost<Seq<Seq<char>>> = Ghost(Seq::empty());
    let mut i: usize = 0;
    assert(explorer_ddl().take(0) =~= Seq::<Seq<char>>::empty());
    while i < statements.len()
        invariant
            i <= statements@.len(),
            statements@.len() == explorer_ddl().len(),
            forall|k: int| 0 <= k < statements@.len() ==> #[trigger] statements@[k]@ == explorer_ddl()[k],
            run@ == explorer_ddl().take(i as int),
        decreases statements@.len() - i,
    {
        let (_, done) = execute_plain(c, statements[i])?;
        proof {
            assert(explorer_ddl().take(i + 1) =~= explorer_ddl().take(i as int).push(done@));
            run@ = run@.push(done@);
        }
        i = i + 1;
    }
    commit_transaction(tx)?;
    proof {
        assert(explorer_ddl().take(explorer_ddl().len() as int) =~= explorer_ddl());
    }
    Ok(run)
}

/// The checkpoint a `scan_status` lookup gives: the stored height, 0 when
/// none is stored.
pub fn scan_height_or_zero(row: Option<u64>) -> (r: u64)
    ensures
        r == match row {
            Some(v) => v,
            None => 0,
        },
{
    match row {
        Some(v) => v,
        None => 0,
    }
}

/// The durable checkpoint; 0 before the first one is stored.
pub fn load_scan_height(conn: &Connection) -> (r: Result<u64, rusqlite::Error>)
    ensures
        r matches Ok(h) ==> h <= i64::MAX,
{
    let (row, _) = query_integer_by_key(conn, status_select_sql(), height_key())?;
    Ok(scan_height_or_zero(row))
}

/// Stores the durable checkpoint outside any transaction; a height above
/// `i64::MAX` cannot be stored.
pub fn save_scan_height_conn(conn: &Connection, height: u64) -> (r: Result<(), rusqlite::Error>)
    ensures
        height > i64::MAX ==> r is Err,
{
    write_checkpoint(conn, height)?;
    Ok(())
}

/// The write of a checkpoint `height`: the upsert statement, key and value.
pub open spec fn checkpoint_write(height: u64) -> (Seq<char>, Seq<char>, u64) {
    (
        "INSERT INTO scan_status (k, v) VALUES (?1, ?2) ON CONFLICT(k) DO UPDATE SET v = excluded.v"@,
        "height"@,
        height,
    )
}

fn write_checkpoint(conn: &Connection, height: u64) -> (r: Result<
    Ghost<(Seq<char>, Seq<char>, u64)>,
    rusqlite::Error,
>)
    ensures
        height > i64::MAX ==> r is Err,
        r matches Ok(g) ==> g@ == checkpoint_write(height),
{
    let (_, g) = execute_text_integer(conn, status_upsert_sql(), height_key(), height)?;
    Ok(g)
}

/// Stores the durable checkpoint inside a transaction; a height above
/// `i64::MAX` cannot be stored.
pub fn save_scan_height_tx(tx: &Transaction<'_>, height: u64) -> (r: Result<(), rusqlite::Error>)
    ensures
        height > i64::MAX ==> r is Err,
{
    write_checkpoint(transaction_connection(tx), height)?;
    Ok(())
}

/// The stored settings snapshot, if one is stored.
pub fn load_scan_settings(conn: &Connection) -> (r: Result<Option<Vec<u8>>, rusqlite::Error>) {
    query_blob_by_key(conn, status_select_sql(), settings_key())
}

/// Stores the settings snapshot inside a transaction.
pub fn save_scan_settings_tx(tx: &Transaction<'_>, data: &[u8]) -> (r: Result<(), rusqlite::Error>) {
    execute_text_blob(transaction_connection(tx), status_upsert_sql(), settings_key(), data)?;
    Ok(())
}

/// Stores the checkpoint and the settings snapshot together, in one
/// transaction; a height above `i64::MAX` cannot be stored.
pub fn save_scan_settings_conn(conn: &mut Connection, height: u64, data: &[u8]) -> (r: Result<
    (),
    rusqlite::Error,
>)
    ensures
        height > i64::MAX ==> r is Err,
{
    let tx = begin_transaction(conn)?;
    save_scan_height_tx(&tx, height)?;
    save_scan_settings_tx(&tx, data)?;
    commit_transaction(tx)
}

/// The largest account id stored, 0 when there is none.
pub fn load_max_account_id(conn: &Connection) -> (r: Result<u64, rusqlite::Error>)
    ensures
        r matches Ok(v) ==> v <= i64::MAX,
{
    let (v, _) = read_max_account_id(conn)?;
    Ok(v)
}

/// The statement that reads the largest account id: the maximum `id` of
/// the `account` rows, 0 when there is none.
pub open spec fn max_account_id_statement() -> Seq<char> {
    "SELECT IFNULL(MAX(id), 0) FROM account"@
}

fn read_max_account_id(conn: &Connection) -> (r: Result<(u64, Ghost<Seq<char>>), rusqlite::Error>)
    ensures
        r matches Ok((v, _)) ==> v <= i64::MAX,
        r matches Ok((_, g)) ==> g@ == max_account_id_statement(),
{
    query_first_integer(conn, max_account_id_sql())
}

/// The highest height of any transfer or DeFi row, 0 when there is none: a
/// conservative checkpoint for a database written before checkpoints were
/// stored.
pub fn infer_legacy_scan_height(conn: &Connection) -> (r: Result<u64, rusqlite::Error>)
    ensures
        r matches Ok(v) ==> v <= i64::MAX,
{
    let (v, _) = read_legacy_height(conn)?;
    Ok(v)
}

/// The statement that infers a legacy checkpoint: the larger of the highest
/// `coin_transfer` height and the highest `defi_operate` height, each 0 for
/// an empty table.
pub open spec fn legacy_height_statement() -> Seq<char> {
    "SELECT MAX(height) FROM (SELECT IFNULL(MAX(height), 0) AS height FROM coin_transfer UNION ALL SELECT IFNULL(MAX(height), 0) AS height FROM defi_operate)"@
}

fn read_legacy_height(conn: &Connection) -> (r: Result<(u64, Ghost<Seq<char>>), rusqlite::Error>)
    ensures
        r matches Ok((v, _)) ==> v <= i64::MAX,
        r matches Ok((_, g)) ==> g@ == legacy_height_statement(),
{
    query_first_integer(conn, legacy_height_sql())
}

/// The readable addresses of all stored accounts, in the order of their ids.
pub fn load_all_account_addresses(conn: &Connection) -> (r: Result<Vec<String>, rusqlite::Error>) {
    let (v, _) = read_account_addresses(conn)?;
    Ok(v)
}

/// The statement that reads every account's address: one row per account,
/// in increasing id order, with no limit.
pub open spec fn account_addresses_statement() -> Seq<char> {
    "SELECT address FROM account ORDER BY id"@
}

fn read_account_addresses(conn: &Connection) -> (r: Result<(Vec<String>, Ghost<Seq<char>>), rusqlite::Error>)
    ensures
        r matches Ok((_, g)) ==> g@ == account_addresses_statement(),
{
    query_texts(conn, account_addresses_sql())
}

/// The text of a database error (`Display for rusqlite::Error`). What it
/// says depends on SQLite's own messages and is not stated.
#[verifier::external_body]
pub(crate) fn sql_error_text(e: &rusqlite::Error) -> String {
    e.to_string()
}

fn prefixed_error(prefix: &str, e: &rusqlite::Error) -> (r: String)
    ensures
        prefix@.is_prefix_of(r@),
{
    let mut m = prefix.to_owned();
    m.append(sql_error_text(e).as_str());
    m
}

/// Sets up the explorer connection: write-ahead journal, temporary tables
/// in memory, a 64 MiB page cache, checkpoints every 1000 pages, the
/// configured `synchronous` mode and a busy timeout of 5 seconds.
pub fn configure_connection(conn: &Connection, synchronous: &str) -> (r: Result<(), String>)
    ensures
        r matches Err(e) ==> {
            ||| "configure hascan SQLite: "@.is_prefix_of(e@)
            ||| "set hascan synchronous mode: "@.is_prefix_of(e@)
            ||| "set hascan busy timeout: "@.is_prefix_of(e@)
        },
{
    match execute_batch(conn, connection_pragmas_sql()) {
        Ok(()) => {},
        Err(e) => return Err(prefixed_error("configure hascan SQLite: ", &e)),
    }
    match pragma_update_text(conn, "synchronous", synchronous) {
        Ok(()) => {},
        Err(e) => return Err(prefixed_error("set hascan synchronous mode: ", &e)),
    }
    match busy_timeout_secs(conn, 5) {
        Ok(()) => Ok(()),
        Err(e) => Err(prefixed_error("set hascan busy timeout: ", &e)),
    }
}

/// What reading the compatibility settings file gave.
#[derive(Debug)]
pub enum LegacySettings {
    /// There is no such file.
    Missing,
    /// The file's bytes.
    Read(Vec<u8>),
    /// Reading failed, with the I/O error's text.
    Failed(String),
}

/// The outcome of reading a stored snapshot from `data`, `source` naming
/// where it came from: the snapshot, or the error message.
pub open spec fn stored_settings(data: Seq<u8>, source: Seq<char>) -> Result<SettingsView, Seq<char>> {
    match parse_settings(data) {
        None => Err("decode hascan "@ + source + " failed: unexpected end of data"@),
        Some((v, n)) => if n == data.len() {
            Ok(v)
        } else {
            Err("decode hascan "@ + source + " failed: "@ + decimal((data.len() - n) as nat)
                + " trailing bytes"@)
        },
    }
}

/// The snapshot startup begins from: the one stored in the database; else
/// the one in the compatibility file at `path`; else the empty snapshot.
pub open spec fn startup_settings(stored: Option<Vec<u8>>, legacy: LegacySettings, path: Seq<char>) -> Result<
    SettingsView,
    Seq<char>,
> {
    match stored {
        Some(data) => stored_settings(data@, "database settings"@),
        None => match legacy {
            LegacySettings::Missing => Ok(crate::setting::default_settings()),
            LegacySettings::Read(data) => stored_settings(data@, "settings "@ + path),
            LegacySettings::Failed(e) => Err("read hascan settings "@ + path + " failed: "@ + e@),
        },
    }
}

/// A result that carries a snapshot, compared with its specification.
pub open spec fn settings_result_is(r: Result<ScanSettings, String>, spec: Result<SettingsView, Seq<char>>) -> bool {
    match (r, spec) {
        (Ok(s), Ok(v)) => s@ == v,
        (Err(e), Err(m)) => e@ == m,
        _ => false,
    }
}

fn read_stored_settings(data: &[u8], source: &str) -> (r: Result<ScanSettings, String>)
    ensures
        settings_result_is(r, stored_settings(data@, source@)),
        r matches Ok(s) ==> settings_wf(s@),
{
    match decode_settings(data, source) {
        Ok(s) => {
            proof {
                lemma_settings_canonical(data@);
            }
            Ok(s)
        },
        Err(e) => {
            let m = e.message();
            proof {
                if parse_settings(data@) is Some {
                    lemma_settings_canonical(data@);
                }
            }
            Err(m)
        },
    }
}

/// Picks the snapshot startup begins from: `stored` is the database's
/// settings row, `legacy` what reading the compatibility file at `path` gave.
/// The file is only looked at when the database holds no snapshot.
pub fn choose_settings(stored: Option<Vec<u8>>, legacy: LegacySettings, path: &str) -> (r: Result<
    ScanSettings,
    String,
>)
    ensures
        settings_result_is(r, startup_settings(stored, legacy, path@)),
        r matches Ok(s) ==> settings_wf(s@),
{
    match stored {
        Some(data) => read_stored_settings(data.as_slice(), "database settings"),
        None => match legacy {
            LegacySettings::Missing => {
                let s = ScanSettings::default();
                proof {
                    lemma_pow256_values();
                    assert(settings_wf(s@));
                }
                Ok(s)
            },
            LegacySettings::Read(data) => {
                let mut source = "settings ".to_owned();
                source.append(path);
                read_stored_settings(data.as_slice(), source.as_str())
            },
            LegacySettings::Failed(e) => {
                let mut m = "read hascan settings ".to_owned();
                m.append(path);
                m.append(" failed: ");
                m.append(e.as_str());
                Err(m)
            },
        },
    }
}

/// The checkpoint a database without one takes over: the snapshot's height
/// when it has one, else the height inferred from the index tables.
pub open spec fn legacy_checkpoint(settings_height: u64, inferred: u64) -> u64 {
    if settings_height > 0 {
        settings_height
    } else {
        inferred
    }
}

/// The checkpoint to store for a database without one (`db_height` 0): the
/// legacy checkpoint when it is above 0; `None` when nothing is taken over.
/// `inferred` only counts when the snapshot's height is 0.
pub fn checkpoint_to_migrate(db_height: u64, settings_height: u64, inferred: u64) -> (r: Option<u64>)
    ensures
        r == (if db_height == 0 && legacy_checkpoint(settings_height, inferred) > 0 {
            Some(legacy_checkpoint(settings_height, inferred))
        } else {
            None
        }),
{
    if db_height != 0 {
        return None;
    }
    let legacy = if settings_height > 0 {
        settings_height
    } else {
        inferred
    };
    if legacy > 0 {
        Some(legacy)
    } else {
        None
    }
}

/// The snapshot once the durable `checkpoint` and the largest stored
/// account id are applied to it, or the error.
pub open spec fn reconciled(v: SettingsView, checkpoint: u64, max_account_id: u64) -> Result<SettingsView, Seq<char>> {
    if checkpoint >= pow256(5) {
        Err("hascan database checkpoint exceeds Uint5"@)
    } else if v.auto_inc_address_id < max_account_id {
        if max_account_id >= pow256(5) {
            Err("hascan account ID exceeds Uint5"@)
        } else {
            Ok(SettingsView { height: checkpoint, auto_inc_address_id: max_account_id, ..v })
        }
    } else {
        Ok(SettingsView { height: checkpoint, ..v })
    }
}

/// Applies the durable checkpoint, which is authoritative over the
/// snapshot's height, and raises the account counter to the largest stored
/// account id; both must fit five bytes. On an error the snapshot is left
/// as it was.
pub fn reconcile_settings(setting: &mut ScanSettings, checkpoint: u64, max_account_id: u64) -> (r: Result<
    (),
    String,
>)
    ensures
        settings_encodable(old(setting)@) ==> settings_encodable(final(setting)@),
        match reconciled(old(setting)@, checkpoint, max_account_id) {
            Ok(v) => r is Ok && final(setting)@ == v,
            Err(m) => (r matches Err(e) && e@ == m) && final(setting)@ == old(setting)@,
        },
{
    proof {
        lemma_pow256_values();
    }
    if checkpoint > 0xff_ffff_ffff {
        return Err("hascan database checkpoint exceeds Uint5".to_owned());
    }
    if setting.auto_inc_address_id < max_account_id {
        if max_account_id > 0xff_ffff_ffff {
            return Err("hascan account ID exceeds Uint5".to_owned());
        }
        setting.auto_inc_address_id = max_account_id;
    }
    setting.height = checkpoint;
    Ok(())
}

/// The startup snapshot from the snapshot `v` picked at startup, the
/// database checkpoint `db_height`, the height inferred from the index
/// tables and the largest stored account id: the checkpoint is the database
/// one, or the legacy one taken over when the database stores none (see
/// `checkpoint_to_migrate`); then the snapshot is reconciled with it and the
/// account ids (see `reconciled`). Also gives the checkpoint taken over.
pub open spec fn startup_snapshot(v: SettingsView, db_height: u64, inferred: u64, max_account_id: u64) -> Result<
    (SettingsView, Option<u64>),
    Seq<char>,
> {
    let migrated = if db_height == 0 && legacy_checkpoint(v.height, inferred) > 0 {
        Some(legacy_checkpoint(v.height, inferred))
    } else {
        None::<u64>
    };
    let checkpoint = match migrated {
        Some(h) => h,
        None => db_height,
    };
    match reconciled(v, checkpoint, max_account_id) {
        Ok(w) => Ok((w, migrated)),
        Err(e) => Err(e),
    }
}

/// Builds the startup snapshot from what startup read: the picked snapshot,
/// the database checkpoint, the inferred height (only looked at when neither
/// the database nor the snapshot has a height) and the largest account id.
pub fn startup_state(settings: ScanSettings, db_height: u64, inferred: u64, max_account_id: u64) -> (r: Result<
    (ScanSettings, Option<u64>),
    String,
>)
    ensures
        match startup_snapshot(settings@, db_height, inferred, max_account_id) {
            Ok((w, m)) => r matches Ok((s, n)) && s@ == w && n == m,
            Err(e) => r matches Err(x) && x@ == e,
        },
        settings_encodable(settings@) ==> (r matches Ok((s, _)) ==> settings_encodable(s@)),
{
    let mut settings = settings;
    let migrated = checkpoint_to_migrate(db_height, settings.height, inferred);
    let checkpoint = match migrated {
        Some(h) => h,
        None => db_height,
    };
    reconcile_settings(&mut settings, checkpoint, max_account_id)?;
    Ok((settings, migrated))
}

/// What startup read from the database, and the checkpoint it wrote.
pub ghost struct StartupReads {
    /// The stored settings row.
    pub stored: Option<Vec<u8>>,
    /// The stored checkpoint (0 when none).
    pub db_height: u64,
    /// The height inferred from the index tables (0 when not read).
    pub inferred: u64,
    /// The statement that inferred it, when it was read.
    pub inferred_by: Option<Seq<char>>,
    /// The largest stored account id.
    pub max_account_id: u64,
    /// The statement that read it.
    pub max_account_id_by: Seq<char>,
    /// The checkpoint write made, if any.
    pub written: Option<(Seq<char>, Seq<char>, u64)>,
}

/// Opens the explorer state on a database connection: creates missing
/// tables, reads the stored snapshot, the checkpoint, the inferred height
/// when needed and the largest account id, stores a legacy checkpoint taken
/// over, and builds the snapshot from what it read: the snapshot picked by
/// `startup_settings`, then `startup_snapshot`. Gives the snapshot, the
/// legacy checkpoint taken over, if any, and what it read and wrote.
pub fn open_settings(conn: &mut Connection, legacy: LegacySettings, path: &str) -> (r: Result<
    (ScanSettings, Option<u64>, Ghost<StartupReads>),
    String,
>)
    ensures
        r matches Ok((s, m, g)) ==> {
            &&& settings_encodable(s@)
            &&& startup_settings(g@.stored, legacy, path@) matches Ok(v)
            &&& startup_snapshot(v, g@.db_height, g@.inferred, g@.max_account_id) == Ok::<
                (SettingsView, Option<u64>),
                Seq<char>,
            >((s@, m))
            &&& match m {
                Some(h) => h > 0 && s@.height == h && g@.written == Some(checkpoint_write(h)),
                None => g@.written is None,
            }
            &&& (g@.db_height == 0 && v.height == 0) ==> g@.inferred_by == Some(legacy_height_statement())
            &&& !(g@.db_height == 0 && v.height == 0) ==> g@.inferred_by is None && g@.inferred == 0
            &&& g@.max_account_id_by == max_account_id_statement()
        },
{
    match create_tables(conn) {
        Ok(_) => {},
        Err(e) => return Err(sql_error_text(&e)),
    }
    let stored = match load_scan_settings(conn) {
        Ok(x) => x,
        Err(e) => return Err(sql_error_text(&e)),
    };
    let ghost stored_read = stored;
    let settings = choose_settings(stored, legacy, path)?;
    let db_height = match load_scan_height(conn) {
        Ok(h) => h,
        Err(e) => return Err(sql_error_text(&e)),
    };
    let mut inferred_by: Ghost<Option<Seq<char>>> = Ghost(None);
    let inferred = if db_height == 0 && settings.height == 0 {
        match read_legacy_height(conn) {
            Ok((h, q)) => {
                proof {
                    inferred_by@ = Some(q@);
                }
                h
            },
            Err(e) => return Err(sql_error_text(&e)),
        }
    } else {
        0
    };
    let mut written: Ghost<Option<(Seq<char>, Seq<char>, u64)>> = Ghost(None);
    if let Some(legacy_height) = checkpoint_to_migrate(db_height, settings.height, inferred) {
        match write_checkpoint(conn, legacy_height) {
            Ok(g) => {
                proof {
                    written@ = Some(g@);
                }
            },
            Err(e) => return Err(sql_error_text(&e)),
        }
    }
    let (max_account_id, max_account_id_by) = match read_max_account_id(conn) {
        Ok(x) => x,
        Err(e) => return Err(sql_error_text(&e)),
    };
    let (s, m) = startup_state(settings, db_height, inferred, max_account_id)?;
    let reads = Ghost(
        StartupReads {
            stored: stored_read,
            db_height,
            inferred,
            inferred_by: inferred_by@,
            max_account_id,
            max_account_id_by: max_account_id_by@,
            written: written@,
        },
    );
    Ok((s, m, reads))
}

} // verus!
