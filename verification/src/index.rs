//! The rows indexing a block writes for its actions.

use vstd::prelude::*;

use rusqlite::{Connection, Transaction};

use crate::active::{rotate_sections, same_but_active};
use crate::database::{sql_error_text, transaction_connection};
use crate::setting::{settings_encodable, ScanSettings};
use crate::transfer::{
    is_coin_type, overflow_message, record_transfer_activity, transfer_activity, OPTY_CH_CLOSE,
    OPTY_CH_OPEN,
};

verus! {

// What the insert wrappers below do depends on the database file and on
// SQLite. On success each gives back, as a ghost value, the row it bound:
// its table and the values handed to the statement's parameters, in order.

/// `Connection::prepare_cached` and `Statement::insert` of a `coin_transfer`
/// row; a success echoes the row bound.
#[verifier::external_body]
fn insert_transfer_row(conn: &Connection, height: u64, from_aid: u64, to_aid: u64, coin_type: u8, amount: u64) -> (r:
    Result<(i64, Ghost<InsertView>), rusqlite::Error>)
    ensures
        r matches Ok((_, g)) ==> g@ == InsertView::CoinTransfer(height, from_aid, to_aid, coin_type, amount),
{
    let mut stmt = conn.prepare_cached(
        "INSERT INTO coin_transfer (height,from_aid,to_aid,coin_type,coin_amt) VALUES (?1, ?2, ?3, ?4, ?5)",
    )?;
    let id = stmt.insert((height, from_aid, to_aid, coin_type, amount))?;
    Ok((id, Ghost(InsertView::CoinTransfer(height, from_aid, to_aid, coin_type, amount))))
}

/// `Connection::prepare_cached` and `Statement::insert` of a `defi_operate`
/// row; a success echoes the row bound.
#[verifier::external_body]
fn insert_defi_row(conn: &Connection, height: u64, kind: u8, aid1: u64, aid2: u64, tarid: &[u8], data: &str) -> (r:
    Result<(i64, Ghost<InsertView>), rusqlite::Error>)
    ensures
        r matches Ok((_, g)) ==> g@ == InsertView::DefiOperate(height, kind, aid1, aid2, tarid@, data@),
{
    let mut stmt = conn.prepare_cached(
        "INSERT INTO defi_operate (height,kind,aid1,aid2,tarid,data) VALUES (?1, ?2, ?3, ?4, ?5, ?6)",
    )?;
    let id = stmt.insert((height, kind, aid1, aid2, tarid, data))?;
    Ok((id, Ghost(InsertView::DefiOperate(height, kind, aid1, aid2, tarid@, data@))))
}

/// `Connection::execute` of an `asset_create` row, ignored when its serial
/// is already stored; a success echoes the row bound.
#[verifier::external_body]
fn insert_asset_row(conn: &Connection, a: &AssetCreated, height: u64) -> (r: Result<
    (usize, Ghost<InsertView>),
    rusqlite::Error,
>)
    ensures
        r matches Ok((_, g)) ==> g@ == InsertView::AssetCreate(height, *a),
{
    let n = conn.execute(
        "INSERT OR IGNORE INTO asset_create (serial,height,issuer_aid,ticket,name,decimal,supply,protocol_cost) VALUES (?1,?2,?3,?4,?5,?6,?7,?8)",
        (a.serial, height, a.issuer_aid, &a.ticket, &a.name, a.decimal, &a.supply, &a.protocol_cost),
    )?;
    Ok((n, Ghost(InsertView::AssetCreate(height, *a))))
}

/// `Connection::execute` of a `contract_deploy` row, ignored when its
/// address is already stored; a success echoes the row bound.
#[verifier::external_body]
fn insert_deploy_row(conn: &Connection, d: &ContractDeployed, height: u64) -> (r: Result<
    (usize, Ghost<InsertView>),
    rusqlite::Error,
>)
    ensures
        r matches Ok((_, g)) ==> g@ == InsertView::ContractDeploy(height, *d),
{
    let n = conn.execute(
        "INSERT OR IGNORE INTO contract_deploy (address,height,deployer_aid,nonce,code_size,protocol_cost) VALUES (?1,?2,?3,?4,?5,?6)",
        (&d.address, height, d.deployer_aid, d.nonce, d.code_size, &d.protocol_cost),
    )?;
    Ok((n, Ghost(InsertView::ContractDeploy(height, *d))))
}

/// `Connection::execute` of a `contract_update` row; a success echoes the
/// row bound.
#[verifier::external_body]
fn insert_update_row(conn: &Connection, u: &ContractUpdated, height: u64) -> (r: Result<
    (usize, Ghost<InsertView>),
    rusqlite::Error,
>)
    ensures
        r matches Ok((_, g)) ==> g@ == InsertView::ContractUpdate(height, *u),
{
    let n = conn.execute(
        "INSERT INTO contract_update (address,height,updater_aid,edit_size,protocol_cost) VALUES (?1,?2,?3,?4,?5)",
        (&u.address, height, u.updater_aid, u.edit_size, &u.protocol_cost),
    )?;
    Ok((n, Ghost(InsertView::ContractUpdate(height, *u))))
}

/// An asset creation, as the index stores it.
#[derive(Debug)]
pub struct AssetCreated {
    pub serial: u64,
    pub issuer_aid: u64,
    pub ticket: String,
    pub name: String,
    pub decimal: u8,
    /// The supply in decimal.
    pub supply: String,
    pub protocol_cost: String,
}

/// A contract deployment, as the index stores it.
#[derive(Debug)]
pub struct ContractDeployed {
    /// The readable contract address.
    pub address: String,
    pub deployer_aid: u64,
    pub nonce: u32,
    pub code_size: u64,
    pub protocol_cost: String,
}

/// A contract update, as the index stores it.
#[derive(Debug)]
pub struct ContractUpdated {
    /// The readable contract address.
    pub address: String,
    pub updater_aid: u64,
    pub edit_size: u64,
    pub protocol_cost: String,
}

/// A row that indexing an action writes, its accounts resolved to ids.
#[derive(Debug)]
pub enum IndexRow {
    /// A coin transfer, counted in the activity section of its block.
    Transfer { from_aid: u64, to_aid: u64, coin_type: u8, amount: u64 },
    /// A channel opening between two accounts, with its amounts as notes.
    ChannelOpen { left_aid: u64, right_aid: u64, channel_id: Vec<u8>, notes: String },
    /// A channel closing by the transaction's main account.
    ChannelClose { main_aid: u64, channel_id: Vec<u8> },
    AssetCreate(AssetCreated),
    ContractDeploy(ContractDeployed),
    ContractUpdate(ContractUpdated),
}

/// A row the index can write: transfers carry a known coin type.
pub open spec fn index_row_ok(row: IndexRow) -> bool {
    row matches IndexRow::Transfer { coin_type, .. } ==> is_coin_type(coin_type)
}

/// The insert that writes a row: its table and the values of its columns.
#[derive(Debug)]
pub enum RowInsert<'a> {
    /// `coin_transfer (height, from_aid, to_aid, coin_type, coin_amt)`.
    CoinTransfer { height: u64, from_aid: u64, to_aid: u64, coin_type: u8, coin_amt: u64 },
    /// `defi_operate (height, kind, aid1, aid2, tarid, data)`.
    DefiOperate { height: u64, kind: u8, aid1: u64, aid2: u64, tarid: &'a [u8], data: &'a str },
    /// `asset_create`, from the asset and the height.
    AssetCreate { height: u64, asset: &'a AssetCreated },
    /// `contract_deploy`, from the deployment and the height.
    ContractDeploy { height: u64, deploy: &'a ContractDeployed },
    /// `contract_update`, from the update and the height.
    ContractUpdate { height: u64, update: &'a ContractUpdated },
}

/// The content of an insert.
pub ghost enum InsertView {
    CoinTransfer(u64, u64, u64, u8, u64),
    DefiOperate(u64, u8, u64, u64, Seq<u8>, Seq<char>),
    AssetCreate(u64, AssetCreated),
    ContractDeploy(u64, ContractDeployed),
    ContractUpdate(u64, ContractUpdated),
}

pub open spec fn insert_view(r: RowInsert) -> InsertView {
    match r {
        RowInsert::CoinTransfer { height, from_aid, to_aid, coin_type, coin_amt } => InsertView::CoinTransfer(
            height,
            from_aid,
            to_aid,
            coin_type,
            coin_amt,
        ),
        RowInsert::DefiOperate { height, kind, aid1, aid2, tarid, data } => InsertView::DefiOperate(
            height,
            kind,
            aid1,
            aid2,
            tarid@,
            data@,
        ),
        RowInsert::AssetCreate { height, asset } => InsertView::AssetCreate(height, *asset),
        RowInsert::ContractDeploy { height, deploy } => InsertView::ContractDeploy(height, *deploy),
        RowInsert::ContractUpdate { height, update } => InsertView::ContractUpdate(height, *update),
    }
}

/// The insert of a row for a block at `height`: a transfer goes to
/// `coin_transfer` from sender to receiver; a channel opening to
/// `defi_operate` as kind 1 between the two accounts with its notes; a
/// channel closing as kind 2 by the main account, second account 0 and no
/// notes; assets and contracts to their own tables.
pub open spec fn row_insert_spec(height: u64, row: IndexRow) -> InsertView {
    match row {
        IndexRow::Transfer { from_aid, to_aid, coin_type, amount } => InsertView::CoinTransfer(
            height,
            from_aid,
            to_aid,
            coin_type,
            amount,
        ),
        IndexRow::ChannelOpen { left_aid, right_aid, channel_id, notes } => InsertView::DefiOperate(
            height,
            OPTY_CH_OPEN,
            left_aid,
            right_aid,
            channel_id@,
            notes@,
        ),
        IndexRow::ChannelClose { main_aid, channel_id } => InsertView::DefiOperate(
            height,
            OPTY_CH_CLOSE,
            main_aid,
            0,
            channel_id@,
            Seq::empty(),
        ),
        IndexRow::AssetCreate(a) => InsertView::AssetCreate(height, a),
        IndexRow::ContractDeploy(d) => InsertView::ContractDeploy(height, d),
        IndexRow::ContractUpdate(u) => InsertView::ContractUpdate(height, u),
    }
}

/// The insert that writes `row` for a block at `height`.
pub fn row_insert<'a>(height: u64, row: &'a IndexRow) -> (r: RowInsert<'a>)
    ensures
        insert_view(r) == row_insert_spec(height, *row),
{
    proof {
        reveal_strlit("");
    }
    match row {
        IndexRow::Transfer { from_aid, to_aid, coin_type, amount } => RowInsert::CoinTransfer {
            height,
            from_aid: *from_aid,
            to_aid: *to_aid,
            coin_type: *coin_type,
            coin_amt: *amount,
        },
        IndexRow::ChannelOpen { left_aid, right_aid, channel_id, notes } => RowInsert::DefiOperate {
            height,
            kind: OPTY_CH_OPEN,
            aid1: *left_aid,
            aid2: *right_aid,
            tarid: channel_id.as_slice(),
            data: notes.as_str(),
        },
        IndexRow::ChannelClose { main_aid, channel_id } => RowInsert::DefiOperate {
            height,
            kind: OPTY_CH_CLOSE,
            aid1: *main_aid,
            aid2: 0,
            tarid: channel_id.as_slice(),
            data: {
                let d = "";
                assert(d@ =~= Seq::<char>::empty());
                d
            },
        },
        IndexRow::AssetCreate(a) => RowInsert::AssetCreate { height, asset: a },
        IndexRow::ContractDeploy(d) => RowInsert::ContractDeploy { height, deploy: d },
        IndexRow::ContractUpdate(u) => RowInsert::ContractUpdate { height, update: u },
    }
}

/// Writes the row of an action of the block at `height`, by the insert of
/// `row_insert`; a success gives back the row written. A transfer is also
/// counted in the activity section of `height` once its row is written;
/// the other rows leave the snapshot as it is. A database error leaves the
/// snapshot as it is and gives the error's text.
pub fn record_index_row(tx: &Transaction<'_>, setting: &mut ScanSettings, height: u64, row: &IndexRow) -> (r:
    Result<Ghost<InsertView>, String>)
    requires
        index_row_ok(*row),
    ensures
        r matches Ok(g) ==> g@ == row_insert_spec(height, *row),
        settings_encodable(old(setting)@) ==> settings_encodable(final(setting)@),
        match *row {
            IndexRow::Transfer { coin_type, amount, .. } => {
                ||| (r is Err && final(setting)@ == old(setting)@)
                ||| ({
                    let rot = rotate_sections(old(setting).chain_active.lists@, height);
                    let (a, failed) = transfer_activity(rot[0], coin_type, amount);
                    &&& same_but_active(old(setting)@, final(setting)@)
                    &&& final(setting).chain_active.count == rot.len() as u8
                    &&& final(setting).chain_active.lists@ == rot.update(0, a)
                    &&& match failed {
                        None => r is Ok,
                        Some(name) => r matches Err(e) && e@ == overflow_message(name),
                    }
                })
            },
            _ => final(setting)@ == old(setting)@,
        },
{
    let conn = transaction_connection(tx);
    let written = match row_insert(height, row) {
        RowInsert::CoinTransfer { height, from_aid, to_aid, coin_type, coin_amt } => {
            let written = match insert_transfer_row(conn, height, from_aid, to_aid, coin_type, coin_amt) {
                Ok((_, g)) => g,
                Err(e) => return Err(sql_error_text(&e)),
            };
            record_transfer_activity(setting, height, coin_type, coin_amt)?;
            written
        },
        RowInsert::DefiOperate { height, kind, aid1, aid2, tarid, data } => {
            match insert_defi_row(conn, height, kind, aid1, aid2, tarid, data) {
                Ok((_, g)) => g,
                Err(e) => return Err(sql_error_text(&e)),
            }
        },
        RowInsert::AssetCreate { height, asset } => match insert_asset_row(conn, asset, height) {
            Ok((_, g)) => g,
            Err(e) => return Err(sql_error_text(&e)),
        },
        RowInsert::ContractDeploy { height, deploy } => match insert_deploy_row(conn, deploy, height) {
            Ok((_, g)) => g,
            Err(e) => return Err(sql_error_text(&e)),
        },
        RowInsert::ContractUpdate { height, update } => match insert_update_row(conn, update, height) {
            Ok((_, g)) => g,
            Err(e) => return Err(sql_error_text(&e)),
        },
    };
    Ok(written)
}

} // verus!
