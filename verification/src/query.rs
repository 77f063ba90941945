//! The explorer's page queries on the index tables.

use vstd::prelude::*;

use rusqlite::Connection;

use crate::database::{account_id_sql, query_integer_by_key, sql_error_text};
use crate::server::{
    address_map_sql, placeholders, defi_condition, defi_condition_spec, defi_sql, defi_sql_spec, transfer_condition,
    transfer_condition_spec, transfer_sql, transfer_sql_spec, TransferFilter,
};

verus! {

/// A transfer row: height, sender id, receiver id, coin type, amount.
pub type TransferRow = (u64, u64, u64, u8, u64);

/// A DeFi row: height, kind, first and second account id, target id in
/// hexadecimal, notes.
pub type DefiRow = (u64, u8, u64, u64, String, String);

/// An asset row: serial, height, issuer id, ticket, name, decimals, supply,
/// protocol cost.
pub type AssetRow = (u64, u64, u64, String, String, u8, String, String);

/// A contract row: address, height, deployer id, nonce, code size, protocol
/// cost.
pub type ContractRow = (String, u64, u64, u32, u64, String);

/// The statements a page query ran.
pub ghost struct PageRun {
    /// The account lookup: its statement, the address looked up and the id
    /// found.
    pub lookup: Option<(Seq<char>, Seq<char>, Option<u64>)>,
    /// The page query: its statement, and the values bound to `?1` (limit)
    /// and `?2` (offset).
    pub query: Option<(Seq<char>, u64, u64)>,
    /// The address lookup of the listed ids: its statement and the ids bound.
    pub names: Option<(Seq<char>, Seq<u64>)>,
}

/// One page of a query, with the addresses of the account ids its rows
/// name, and the statements run to get it.
pub struct Page<T> {
    pub addrs: Vec<(u64, String)>,
    pub list: Vec<T>,
    pub run: Ghost<PageRun>,
}

/// The lookup of the addresses of `n` account ids.
pub open spec fn address_map_sql_spec(n: nat) -> Seq<char> {
    "SELECT id,address FROM account WHERE id IN ("@ + placeholders(n) + ")"@
}

/// The address lookup made for the listed ids `ids`: none for no ids, which
/// name no address; else the lookup of exactly those ids.
pub open spec fn names_run(ids: Seq<u64>, names: Option<(Seq<char>, Seq<u64>)>, addrs: Seq<(u64, String)>) -> bool {
    if ids.len() == 0 {
        names is None && addrs.len() == 0
    } else {
        names == Some((address_map_sql_spec(ids.len()), ids))
    }
}

/// The account lookup of a page filtered by `address`, if there is one.
pub open spec fn lookup_run(address: Option<Seq<char>>, lookup: Option<(Seq<char>, Seq<char>, Option<u64>)>) -> bool {
    match address {
        None => lookup is None,
        Some(a) => lookup matches Some((q, k, _)) && q == "SELECT id FROM account WHERE address = ?1"@ && k == a,
    }
}

/// A page answered from the statements it ran: no page query when the
/// looked-up address has no account, and then no rows or addresses; else
/// the query `query` with limit and offset, and the address lookup of the
/// listed ids.
pub open spec fn page_run(
    query: Option<Seq<char>>,
    limit: u64,
    offset: u64,
    ids: Seq<u64>,
    listed: nat,
    addrs: Seq<(u64, String)>,
    run: PageRun,
) -> bool {
    match query {
        None => listed == 0 && addrs.len() == 0 && run.query is None && run.names is None,
        Some(q) => run.query == Some((q, limit, offset)) && names_run(ids, run.names, addrs),
    }
}

/// Every account id of an address map fits SQLite's signed integers.
pub open spec fn ids_fit(m: Seq<(u64, String)>) -> bool {
    forall|i: int| 0 <= i < m.len() ==> #[trigger] m[i].0 <= i64::MAX
}

/// The unsigned columns of transfer rows fit SQLite's signed integers.
pub open spec fn transfer_rows_fit(rows: Seq<TransferRow>) -> bool {
    forall|i: int|
        0 <= i < rows.len() ==> {
            let r = #[trigger] rows[i];
            r.0 <= i64::MAX && r.1 <= i64::MAX && r.2 <= i64::MAX && r.4 <= i64::MAX
        }
}

/// The unsigned columns of DeFi rows fit SQLite's signed integers.
pub open spec fn defi_rows_fit(rows: Seq<DefiRow>) -> bool {
    forall|i: int|
        0 <= i < rows.len() ==> {
            let r = #[trigger] rows[i];
            r.0 <= i64::MAX && r.2 <= i64::MAX && r.3 <= i64::MAX
        }
}

/// The unsigned columns of asset rows fit SQLite's signed integers.
pub open spec fn asset_rows_fit(rows: Seq<AssetRow>) -> bool {
    forall|i: int|
        0 <= i < rows.len() ==> {
            let r = #[trigger] rows[i];
            r.0 <= i64::MAX && r.1 <= i64::MAX && r.2 <= i64::MAX
        }
}

/// The unsigned columns of contract rows fit SQLite's signed integers.
pub open spec fn contract_rows_fit(rows: Seq<ContractRow>) -> bool {
    forall|i: int|
        0 <= i < rows.len() ==> {
            let r = #[trigger] rows[i];
            r.1 <= i64::MAX && r.2 <= i64::MAX && r.4 <= i64::MAX
        }
}

// What the wrappers below return depends on the database file and on
// SQLite. They claim only what rusqlite's own code decides with the
// `fallible_uint` feature: binding an unsigned parameter above `i64::MAX`
// fails (before that, a statement whose parameter count differs is refused),
// and an unsigned column is read from SQLite's signed integer, so it is at
// most `i64::MAX`.

/// `Connection::prepare` and `Statement::query_map` with the parameters
/// `?1`, `?2`, collecting five columns per row. Claimed: a limit or offset
/// above `i64::MAX` gives an error, the unsigned columns read fit, and a
/// success echoes the statement, limit and offset handed over.
#[verifier::external_body]
fn query_transfer_rows(conn: &Connection, sql: &str, limit: u64, offset: u64) -> (r: Result<
    (Vec<TransferRow>, Ghost<(Seq<char>, u64, u64)>),
    rusqlite::Error,
>)
    ensures
        limit > i64::MAX || offset > i64::MAX ==> r is Err,
        r matches Ok((_, g)) ==> g@ == (sql@, limit, offset),
        r matches Ok((rows, _)) ==> transfer_rows_fit(rows@),
{
    let mut stmt = conn.prepare(sql)?;
    let rows = stmt.query_map((limit, offset), |row| {
        Ok((row.get(0)?, row.get(1)?, row.get(2)?, row.get(3)?, row.get(4)?))
    })?;
    let out: Result<Vec<TransferRow>, rusqlite::Error> = rows.collect();
    Ok((out?, Ghost((sql@, limit, offset))))
}

/// As `query_transfer_rows`, collecting the six columns of a DeFi row.
#[verifier::external_body]
fn query_defi_rows(conn: &Connection, sql: &str, limit: u64, offset: u64) -> (r: Result<
    (Vec<DefiRow>, Ghost<(Seq<char>, u64, u64)>),
    rusqlite::Error,
>)
    ensures
        limit > i64::MAX || offset > i64::MAX ==> r is Err,
        r matches Ok((_, g)) ==> g@ == (sql@, limit, offset),
        r matches Ok((rows, _)) ==> defi_rows_fit(rows@),
{
    let mut stmt = conn.prepare(sql)?;
    let rows = stmt.query_map((limit, offset), |row| {
        Ok((row.get(0)?, row.get(1)?, row.get(2)?, row.get(3)?, row.get(4)?, row.get(5)?))
    })?;
    let out: Result<Vec<DefiRow>, rusqlite::Error> = rows.collect();
    Ok((out?, Ghost((sql@, limit, offset))))
}

/// As `query_transfer_rows`, collecting the eight columns of an asset row.
#[verifier::external_body]
fn query_asset_rows(conn: &Connection, sql: &str, limit: u64, offset: u64) -> (r: Result<
    (Vec<AssetRow>, Ghost<(Seq<char>, u64, u64)>),
    rusqlite::Error,
>)
    ensures
        limit > i64::MAX || offset > i64::MAX ==> r is Err,
        r matches Ok((_, g)) ==> g@ == (sql@, limit, offset),
        r matches Ok((rows, _)) ==> asset_rows_fit(rows@),
{
    let mut stmt = conn.prepare(sql)?;
    let rows = stmt.query_map((limit, offset), |row| {
        Ok((row.get(0)?, row.get(1)?, row.get(2)?, row.get(3)?, row.get(4)?, row.get(5)?, row.get(6)?, row.get(7)?))
    })?;
    let out: Result<Vec<AssetRow>, rusqlite::Error> = rows.collect();
    Ok((out?, Ghost((sql@, limit, offset))))
}

/// As `query_transfer_rows`, collecting the six columns of a contract row.
#[verifier::external_body]
fn query_contract_rows(conn: &Connection, sql: &str, limit: u64, offset: u64) -> (r: Result<
    (Vec<ContractRow>, Ghost<(Seq<char>, u64, u64)>),
    rusqlite::Error,
>)
    ensures
        limit > i64::MAX || offset > i64::MAX ==> r is Err,
        r matches Ok((_, g)) ==> g@ == (sql@, limit, offset),
        r matches Ok((rows, _)) ==> contract_rows_fit(rows@),
{
    let mut stmt = conn.prepare(sql)?;
    let rows = stmt.query_map((limit, offset), |row| {
        Ok((row.get(0)?, row.get(1)?, row.get(2)?, row.get(3)?, row.get(4)?, row.get(5)?))
    })?;
    let out: Result<Vec<ContractRow>, rusqlite::Error> = rows.collect();
    Ok((out?, Ghost((sql@, limit, offset))))
}

/// `Connection::prepare` and `Statement::query_map` with one integer
/// parameter per id (`params_from_iter`), collecting id and address.
/// Claimed: an id above `i64::MAX` gives an error (it is bound, or the
/// statement takes fewer parameters, which rusqlite refuses), and the ids
/// read fit; a success echoes the statement and ids handed over.
#[verifier::external_body]
fn query_id_addresses(conn: &Connection, sql: &str, ids: &[u64]) -> (r: Result<
    (Vec<(u64, String)>, Ghost<(Seq<char>, Seq<u64>)>),
    rusqlite::Error,
>)
    ensures
        (exists|i: int| 0 <= i < ids@.len() && #[trigger] ids@[i] > i64::MAX) ==> r is Err,
        r matches Ok((m, _)) ==> ids_fit(m@),
        r matches Ok((_, g)) ==> g@ == (sql@, ids@),
{
    let mut stmt = conn.prepare(sql)?;
    let rows = stmt.query_map(rusqlite::params_from_iter(ids.iter()), |row| Ok((row.get(0)?, row.get(1)?)))?;
    let out: Result<Vec<(u64, String)>, rusqlite::Error> = rows.collect();
    Ok((out?, Ghost((sql@, ids@))))
}

/// The account ids transfer rows name: sender then receiver, row by row.
pub open spec fn transfer_ids(rows: Seq<TransferRow>) -> Seq<u64>
    decreases rows.len(),
{
    if rows.len() == 0 {
        Seq::empty()
    } else {
        transfer_ids(rows.drop_last()) + seq![rows.last().1, rows.last().2]
    }
}

/// The account ids DeFi rows name: first then second, row by row.
pub open spec fn defi_ids(rows: Seq<DefiRow>) -> Seq<u64>
    decreases rows.len(),
{
    if rows.len() == 0 {
        Seq::empty()
    } else {
        defi_ids(rows.drop_last()) + seq![rows.last().2, rows.last().3]
    }
}

/// The account ids of a page of transfers.
pub fn transfer_account_ids(rows: &Vec<TransferRow>) -> (r: Vec<u64>)
    ensures
        r@ == transfer_ids(rows@),
{
    let mut r: Vec<u64> = Vec::new();
    let mut i: usize = 0;
    while i < rows.len()
        invariant
            i <= rows@.len(),
            r@ == transfer_ids(rows@.take(i as int)),
        decreases rows@.len() - i,
    {
        let row = &rows[i];
        r.push(row.1);
        r.push(row.2);
        assert(rows@.take(i + 1).drop_last() =~= rows@.take(i as int));
        i = i + 1;
        assert(r@ =~= transfer_ids(rows@.take(i as int)));
    }
    assert(rows@.take(rows@.len() as int) =~= rows@);
    r
}

/// The account ids of a page of DeFi operations.
pub fn defi_account_ids(rows: &Vec<DefiRow>) -> (r: Vec<u64>)
    ensures
        r@ == defi_ids(rows@),
{
    let mut r: Vec<u64> = Vec::new();
    let mut i: usize = 0;
    while i < rows.len()
        invariant
            i <= rows@.len(),
            r@ == defi_ids(rows@.take(i as int)),
        decreases rows@.len() - i,
    {
        let row = &rows[i];
        r.push(row.2);
        r.push(row.3);
        assert(rows@.take(i + 1).drop_last() =~= rows@.take(i as int));
        i = i + 1;
        assert(r@ =~= defi_ids(rows@.take(i as int)));
    }
    assert(rows@.take(rows@.len() as int) =~= rows@);
    r
}

/// The issuer ids of a page of assets, row by row.
pub fn asset_account_ids(rows: &Vec<AssetRow>) -> (r: Vec<u64>)
    ensures
        r@ == rows@.map_values(|x: AssetRow| x.2),
{
    let mut r: Vec<u64> = Vec::new();
    let mut i: usize = 0;
    while i < rows.len()
        invariant
            i <= rows@.len(),
            r@ == rows@.take(i as int).map_values(|x: AssetRow| x.2),
        decreases rows@.len() - i,
    {
        r.push(rows[i].2);
        i = i + 1;
        assert(r@ =~= rows@.take(i as int).map_values(|x: AssetRow| x.2));
    }
    assert(rows@.take(rows@.len() as int) =~= rows@);
    r
}

/// The deployer ids of a page of contracts, row by row.
pub fn contract_account_ids(rows: &Vec<ContractRow>) -> (r: Vec<u64>)
    ensures
        r@ == rows@.map_values(|x: ContractRow| x.2),
{
    let mut r: Vec<u64> = Vec::new();
    let mut i: usize = 0;
    while i < rows.len()
        invariant
            i <= rows@.len(),
            r@ == rows@.take(i as int).map_values(|x: ContractRow| x.2),
        decreases rows@.len() - i,
    {
        r.push(rows[i].2);
        i = i + 1;
        assert(r@ =~= rows@.take(i as int).map_values(|x: ContractRow| x.2));
    }
    assert(rows@.take(rows@.len() as int) =~= rows@);
    r
}

fn account_lookup(conn: &Connection, address: &str) -> (r: Result<
    (Option<u64>, Ghost<(Seq<char>, Seq<char>, Option<u64>)>),
    String,
>)
    ensures
        r matches Ok((Some(id), _)) ==> id <= i64::MAX,
        r matches Ok((id, g)) ==> g@ == ("SELECT id FROM account WHERE address = ?1"@, address@, id),
{
    match query_integer_by_key(conn, account_id_sql(), address) {
        Ok((id, g)) => Ok((id, Ghost((g@.0, g@.1, id)))),
        Err(e) => Err(sql_error_text(&e)),
    }
}

/// The id of the account with the given address, if it is stored.
pub fn query_address_id(conn: &Connection, address: &str) -> (r: Result<Option<u64>, String>)
    ensures
        r matches Ok(Some(id)) ==> id <= i64::MAX,
{
    let (id, _) = account_lookup(conn, address)?;
    Ok(id)
}

fn address_names(conn: &Connection, ids: &Vec<u64>) -> (r: Result<
    (Vec<(u64, String)>, Ghost<Option<(Seq<char>, Seq<u64>)>>),
    String,
>)
    ensures
        ids@.len() == 0 ==> r is Ok,
        (exists|i: int| 0 <= i < ids@.len() && #[trigger] ids@[i] > i64::MAX) ==> r is Err,
        r matches Ok((m, g)) ==> ids_fit(m@) && names_run(ids@, g@, m@),
{
    if ids.len() == 0 {
        return Ok((Vec::new(), Ghost(None)));
    }
    let sql = address_map_sql(ids.len());
    match query_id_addresses(conn, sql.as_str(), ids.as_slice()) {
        Ok((m, g)) => Ok((m, Ghost(Some(g@)))),
        Err(e) => Err(sql_error_text(&e)),
    }
}

/// The addresses of the given account ids; none are looked up for no ids,
/// and an id above `i64::MAX` cannot be looked up.
pub fn query_address_map(conn: &Connection, ids: &Vec<u64>) -> (r: Result<Vec<(u64, String)>, String>)
    ensures
        ids@.len() == 0 ==> (r matches Ok(m) && m@.len() == 0),
        (exists|i: int| 0 <= i < ids@.len() && #[trigger] ids@[i] > i64::MAX) ==> r is Err,
        r matches Ok(m) ==> ids_fit(m@),
{
    let (m, _) = address_names(conn, ids)?;
    Ok(m)
}

/// The page query of transfers for a filter whose address was looked up:
/// none when the address has no account, else the query on its id.
pub open spec fn transfer_query_spec(filter: Option<(TransferFilter, Option<u64>)>) -> Option<Seq<char>> {
    match filter {
        None => Some(transfer_sql_spec(transfer_condition_spec(None))),
        Some((_, None)) => None,
        Some((f, Some(id))) => Some(transfer_sql_spec(transfer_condition_spec(Some((f, id))))),
    }
}

/// The query of a transfer page: all transfers without a filter; with a
/// filter, `None` when its address has no account, else the transfers of
/// that account id in the filtered column.
pub fn transfer_query(filter: Option<(TransferFilter, Option<u64>)>) -> (r: Option<String>)
    ensures
        match transfer_query_spec(filter) {
            None => r is None,
            Some(q) => r matches Some(s) && s@ == q,
        },
{
    let condition = match filter {
        None => transfer_condition(None),
        Some((_, None)) => return None,
        Some((f, Some(id))) => transfer_condition(Some((f, id))),
    };
    Some(transfer_sql(condition.as_str()))
}

/// The page query of DeFi operations for an address that was looked up:
/// none when the address has no account, else the query on its id.
pub open spec fn defi_query_spec(filter: Option<Option<u64>>) -> Option<Seq<char>> {
    match filter {
        None => Some(defi_sql_spec(defi_condition_spec(None))),
        Some(None) => None,
        Some(Some(id)) => Some(defi_sql_spec(defi_condition_spec(Some(id)))),
    }
}

/// The query of a DeFi page: all operations without an address; `None` when
/// the address has no account, else the operations naming that account id.
pub fn defi_query(filter: Option<Option<u64>>) -> (r: Option<String>)
    ensures
        match defi_query_spec(filter) {
            None => r is None,
            Some(q) => r matches Some(s) && s@ == q,
        },
{
    let condition = match filter {
        None => defi_condition(None),
        Some(None) => return None,
        Some(Some(id)) => defi_condition(Some(id)),
    };
    Some(defi_sql(condition.as_str()))
}

/// The page query of created assets, newest first.
pub fn assets_sql() -> (r: &'static str)
    ensures
        r@ == "SELECT serial,height,issuer_aid,ticket,name,decimal,supply,protocol_cost FROM asset_create ORDER BY height DESC,serial DESC LIMIT ?1 OFFSET ?2"@,
{
    "SELECT serial,height,issuer_aid,ticket,name,decimal,supply,protocol_cost FROM asset_create ORDER BY height DESC,serial DESC LIMIT ?1 OFFSET ?2"
}

/// The page query of deployed contracts, newest first.
pub fn contracts_sql() -> (r: &'static str)
    ensures
        r@ == "SELECT address,height,deployer_aid,nonce,code_size,protocol_cost FROM contract_deploy ORDER BY height DESC,address DESC LIMIT ?1 OFFSET ?2"@,
{
    "SELECT address,height,deployer_aid,nonce,code_size,protocol_cost FROM contract_deploy ORDER BY height DESC,address DESC LIMIT ?1 OFFSET ?2"
}

fn empty_page<T>(lookup: Ghost<Option<(Seq<char>, Seq<char>, Option<u64>)>>) -> (r: Page<T>)
    ensures
        r.addrs@.len() == 0,
        r.list@.len() == 0,
        r.run@ == (PageRun { lookup: lookup@, query: None, names: None }),
{
    Page { addrs: Vec::new(), list: Vec::new(), run: Ghost(PageRun { lookup: lookup@, query: None, names: None }) }
}

/// The address a transfer filter looks up.
pub open spec fn transfer_filter_address(filter: Option<(TransferFilter, &str)>) -> Option<Seq<char>> {
    match filter {
        None => None,
        Some((_, a)) => Some(a@),
    }
}

/// A transfer filter with the account id its lookup found.
pub open spec fn transfer_looked_up(filter: Option<(TransferFilter, &str)>, run: PageRun) -> Option<
    (TransferFilter, Option<u64>),
> {
    match filter {
        None => None,
        Some((f, _)) => Some((f, (run.lookup->0).2)),
    }
}

/// The address a DeFi filter looks up.
pub open spec fn defi_filter_address(both: Option<&str>) -> Option<Seq<char>> {
    match both {
        None => None,
        Some(a) => Some(a@),
    }
}

/// A DeFi filter with the account id its lookup found.
pub open spec fn defi_looked_up(both: Option<&str>, run: PageRun) -> Option<Option<u64>> {
    match both {
        None => None,
        Some(_) => Some((run.lookup->0).2),
    }
}

/// A page of transfers, newest first, `limit` rows after `offset`; with a
/// filter, only those of the account with the given (already checked)
/// address, and an empty page when no account has it. The page states the
/// statements it ran: the account lookup of the filter's address, the query
/// of `transfer_query` with limit and offset, and the address lookup of the
/// listed rows' ids. A limit or offset above `i64::MAX` cannot be queried.
pub fn coin_transfer(conn: &Connection, limit: u64, offset: u64, filter: Option<(TransferFilter, &str)>) -> (r:
    Result<Page<TransferRow>, String>)
    ensures
        limit > i64::MAX || offset > i64::MAX ==> (r is Err || (filter is Some && (r matches Ok(p)
            && p.list@.len() == 0 && p.addrs@.len() == 0))),
        r matches Ok(p) ==> {
            &&& transfer_rows_fit(p.list@)
            &&& ids_fit(p.addrs@)
            &&& lookup_run(transfer_filter_address(filter), p.run@.lookup)
            &&& page_run(
                transfer_query_spec(transfer_looked_up(filter, p.run@)),
                limit,
                offset,
                transfer_ids(p.list@),
                p.list@.len(),
                p.addrs@,
                p.run@,
            )
        },
{
    let (looked_up, lookup): (Option<(TransferFilter, Option<u64>)>, Ghost<Option<(Seq<char>, Seq<char>, Option<u64>)>>) = match filter {
        None => (None, Ghost(None)),
        Some((column, address)) => {
            let (id, g) = account_lookup(conn, address)?;
            (Some((column, id)), Ghost(Some(g@)))
        },
    };
    let sql = match transfer_query(looked_up) {
        None => return Ok(empty_page(lookup)),
        Some(q) => q,
    };
    let (list, query) = match query_transfer_rows(conn, sql.as_str(), limit, offset) {
        Ok(x) => x,
        Err(e) => return Err(sql_error_text(&e)),
    };
    let ids = transfer_account_ids(&list);
    let (addrs, names) = address_names(conn, &ids)?;
    Ok(Page { addrs, list, run: Ghost(PageRun { lookup: lookup@, query: Some(query@), names: names@ }) })
}

/// A page of DeFi operations, newest first, `limit` rows after `offset`;
/// with an (already checked) address, only those naming its account, and an
/// empty page when no account has it. The page states the statements it
/// ran, as for `coin_transfer`, with the query of `defi_query`. A limit or
/// offset above `i64::MAX` cannot be queried.
pub fn defi_operate(conn: &Connection, limit: u64, offset: u64, both: Option<&str>) -> (r: Result<
    Page<DefiRow>,
    String,
>)
    ensures
        limit > i64::MAX || offset > i64::MAX ==> (r is Err || (both is Some && (r matches Ok(p)
            && p.list@.len() == 0 && p.addrs@.len() == 0))),
        r matches Ok(p) ==> {
            &&& defi_rows_fit(p.list@)
            &&& ids_fit(p.addrs@)
            &&& lookup_run(defi_filter_address(both), p.run@.lookup)
            &&& page_run(
                defi_query_spec(defi_looked_up(both, p.run@)),
                limit,
                offset,
                defi_ids(p.list@),
                p.list@.len(),
                p.addrs@,
                p.run@,
            )
        },
{
    let (looked_up, lookup): (Option<Option<u64>>, Ghost<Option<(Seq<char>, Seq<char>, Option<u64>)>>) = match both {
        None => (None, Ghost(None)),
        Some(address) => {
            let (id, g) = account_lookup(conn, address)?;
            (Some(id), Ghost(Some(g@)))
        },
    };
    let sql = match defi_query(looked_up) {
        None => return Ok(empty_page(lookup)),
        Some(q) => q,
    };
    let (list, query) = match query_defi_rows(conn, sql.as_str(), limit, offset) {
        Ok(x) => x,
        Err(e) => return Err(sql_error_text(&e)),
    };
    let ids = defi_account_ids(&list);
    let (addrs, names) = address_names(conn, &ids)?;
    Ok(Page { addrs, list, run: Ghost(PageRun { lookup: lookup@, query: Some(query@), names: names@ }) })
}

/// A page of created assets, newest first, `limit` rows after `offset`, by
/// the query of `assets_sql`, with the address lookup of their issuers. A
/// limit or offset above `i64::MAX` cannot be queried.
pub fn ecosystem_assets(conn: &Connection, limit: u64, offset: u64) -> (r: Result<Page<AssetRow>, String>)
    ensures
        limit > i64::MAX || offset > i64::MAX ==> r is Err,
        r matches Ok(p) ==> {
            &&& asset_rows_fit(p.list@)
            &&& ids_fit(p.addrs@)
            &&& p.run@.lookup is None
            &&& page_run(
                Some(
                    "SELECT serial,height,issuer_aid,ticket,name,decimal,supply,protocol_cost FROM asset_create ORDER BY height DESC,serial DESC LIMIT ?1 OFFSET ?2"@,
                ),
                limit,
                offset,
                p.list@.map_values(|x: AssetRow| x.2),
                p.list@.len(),
                p.addrs@,
                p.run@,
            )
        },
{
    let (list, query) = match query_asset_rows(conn, assets_sql(), limit, offset) {
        Ok(x) => x,
        Err(e) => return Err(sql_error_text(&e)),
    };
    let ids = asset_account_ids(&list);
    let (addrs, names) = address_names(conn, &ids)?;
    Ok(Page { addrs, list, run: Ghost(PageRun { lookup: None, query: Some(query@), names: names@ }) })
}

/// A page of deployed contracts, newest first, `limit` rows after `offset`,
/// by the query of `contracts_sql`, with the address lookup of their
/// deployers. A limit or offset above `i64::MAX` cannot be queried.
pub fn ecosystem_contracts(conn: &Connection, limit: u64, offset: u64) -> (r: Result<Page<ContractRow>, String>)
    ensures
        limit > i64::MAX || offset > i64::MAX ==> r is Err,
        r matches Ok(p) ==> {
            &&& contract_rows_fit(p.list@)
            &&& ids_fit(p.addrs@)
            &&& p.run@.lookup is None
            &&& page_run(
                Some(
                    "SELECT address,height,deployer_aid,nonce,code_size,protocol_cost FROM contract_deploy ORDER BY height DESC,address DESC LIMIT ?1 OFFSET ?2"@,
                ),
                limit,
                offset,
                p.list@.map_values(|x: ContractRow| x.2),
                p.list@.len(),
                p.addrs@,
                p.run@,
            )
        },
{
    let (list, query) = match query_contract_rows(conn, contracts_sql(), limit, offset) {
        Ok(x) => x,
        Err(e) => return Err(sql_error_text(&e)),
    };
    let ids = contract_account_ids(&list);
    let (addrs, names) = address_names(conn, &ids)?;
    Ok(Page { addrs, list, run: Ghost(PageRun { lookup: None, query: Some(query@), names: names@ }) })
}

} // verus!
