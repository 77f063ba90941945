use rusqlite::Connection;

use hascan::database::{
    checkpoint_to_migrate, choose_settings, configure_connection, create_tables, infer_legacy_scan_height,
    load_all_account_addresses, load_max_account_id, load_scan_height, load_scan_settings, open_settings,
    reconcile_settings, save_scan_height_conn, save_scan_height_tx, save_scan_settings_conn,
    save_scan_settings_tx, LegacySettings,
};
use hascan::index::{record_index_row, AssetCreated, ContractDeployed, ContractUpdated, IndexRow};
use hascan::query::{coin_transfer, defi_operate, ecosystem_assets, ecosystem_contracts, query_address_id, query_address_map};
use hascan::server::TransferFilter;
use hascan::setting::ScanSettings;
use hascan::transfer::COINTY_SAT;

fn fresh() -> Connection {
    let mut conn = Connection::open_in_memory().unwrap();
    create_tables(&mut conn).unwrap();
    conn
}

fn add_account(conn: &Connection, id: u64, address: &str) {
    conn.execute(
        "INSERT INTO account (id,address,minted_diamond,block_reward,used_fee,timestamp) VALUES (?1,?2,0,0,0.0,1)",
        (id as i64, address),
    )
    .unwrap();
}

#[test]
fn infers_legacy_checkpoint_from_index_tables() {
    let mut conn = Connection::open_in_memory().unwrap();
    create_tables(&mut conn).unwrap();
    conn.execute(
        "INSERT INTO coin_transfer (height,from_aid,to_aid,coin_type,coin_amt) \
         VALUES (123,1,2,1,10000)",
        (),
    )
    .unwrap();
    conn.execute(
        "INSERT INTO defi_operate (height,kind,aid1,aid2,tarid,data) \
         VALUES (456,1,1,2,X'00','')",
        (),
    )
    .unwrap();
    assert_eq!(infer_legacy_scan_height(&conn).unwrap(), 456);
}

#[test]
fn empty_tables_give_zero_checkpoints_and_ids() {
    let mut conn = fresh();
    // creating the tables again keeps them
    create_tables(&mut conn).unwrap();
    assert_eq!(infer_legacy_scan_height(&conn).unwrap(), 0);
    assert_eq!(load_scan_height(&conn).unwrap(), 0);
    assert_eq!(load_max_account_id(&conn).unwrap(), 0);
    assert_eq!(load_scan_settings(&conn).unwrap(), None);
}

#[test]
fn checkpoint_and_snapshot_are_stored() {
    let mut conn = fresh();
    save_scan_height_conn(&conn, 42).unwrap();
    assert_eq!(load_scan_height(&conn).unwrap(), 42);
    save_scan_settings_conn(&mut conn, 43, &[1, 2, 3]).unwrap();
    assert_eq!(load_scan_height(&conn).unwrap(), 43);
    assert_eq!(load_scan_settings(&conn).unwrap(), Some(vec![1, 2, 3]));
    let tx = conn.transaction().unwrap();
    save_scan_height_tx(&tx, 50).unwrap();
    save_scan_settings_tx(&tx, &[4]).unwrap();
    tx.commit().unwrap();
    assert_eq!(load_scan_height(&conn).unwrap(), 50);
    assert_eq!(load_scan_settings(&conn).unwrap(), Some(vec![4]));
}

#[test]
fn accounts_are_listed_by_id() {
    let conn = fresh();
    add_account(&conn, 2, "bbb");
    add_account(&conn, 1, "aaa");
    assert_eq!(load_all_account_addresses(&conn).unwrap(), vec!["aaa".to_owned(), "bbb".to_owned()]);
    assert_eq!(load_max_account_id(&conn).unwrap(), 2);
    assert_eq!(query_address_id(&conn, "bbb").unwrap(), Some(2));
    assert_eq!(query_address_id(&conn, "ccc").unwrap(), None);
    let mut m = query_address_map(&conn, &vec![2, 1, 2]).unwrap();
    m.sort();
    assert_eq!(m, vec![(1, "aaa".to_owned()), (2, "bbb".to_owned())]);
    assert!(query_address_map(&conn, &vec![]).unwrap().is_empty());
}

#[test]
fn startup_settings_come_from_the_database_first() {
    let stored = ScanSettings { height: 9, ..Default::default() }.encode();
    let legacy = ScanSettings { height: 5, ..Default::default() }.encode();
    let s = choose_settings(Some(stored), LegacySettings::Read(legacy.clone()), "/d/settings.dat").unwrap();
    assert_eq!(s.height, 9);
    let s = choose_settings(None, LegacySettings::Read(legacy), "/d/settings.dat").unwrap();
    assert_eq!(s.height, 5);
    assert_eq!(choose_settings(None, LegacySettings::Missing, "p").unwrap(), ScanSettings::default());
    assert_eq!(
        choose_settings(None, LegacySettings::Failed("denied".to_owned()), "/d/settings.dat").unwrap_err(),
        "read hascan settings /d/settings.dat failed: denied"
    );
    assert_eq!(
        choose_settings(None, LegacySettings::Read(vec![0; 3]), "/d/settings.dat").unwrap_err(),
        "decode hascan settings /d/settings.dat failed: unexpected end of data"
    );
    let mut long = ScanSettings::default().encode();
    long.push(1);
    assert_eq!(
        choose_settings(Some(long), LegacySettings::Missing, "p").unwrap_err(),
        "decode hascan database settings failed: 1 trailing bytes"
    );
}

#[test]
fn legacy_checkpoints_are_taken_over_only_once() {
    assert_eq!(checkpoint_to_migrate(0, 7, 99), Some(7));
    assert_eq!(checkpoint_to_migrate(0, 0, 99), Some(99));
    assert_eq!(checkpoint_to_migrate(0, 0, 0), None);
    assert_eq!(checkpoint_to_migrate(3, 7, 99), None);
}

#[test]
fn reconciling_applies_the_checkpoint_and_account_ids() {
    let mut s = ScanSettings { height: 5, auto_inc_address_id: 3, ..Default::default() };
    reconcile_settings(&mut s, 8, 10).unwrap();
    assert_eq!((s.height, s.auto_inc_address_id), (8, 10));
    reconcile_settings(&mut s, 9, 4).unwrap();
    assert_eq!((s.height, s.auto_inc_address_id), (9, 10));
    assert_eq!(reconcile_settings(&mut s, 1 << 40, 0).unwrap_err(), "hascan database checkpoint exceeds Uint5");
    assert_eq!(reconcile_settings(&mut s, 1, 1 << 40).unwrap_err(), "hascan account ID exceeds Uint5");
    assert_eq!((s.height, s.auto_inc_address_id), (9, 10));
}

#[test]
fn opening_a_fresh_database() {
    let mut conn = Connection::open_in_memory().unwrap();
    let (s, migrated, _) = open_settings(&mut conn, LegacySettings::Missing, "p").unwrap();
    assert_eq!(s, ScanSettings::default());
    assert_eq!(migrated, None);
}

#[test]
fn opening_takes_over_the_legacy_settings_height() {
    let mut conn = Connection::open_in_memory().unwrap();
    let legacy = ScanSettings { height: 77, ..Default::default() }.encode();
    let (s, migrated, _) = open_settings(&mut conn, LegacySettings::Read(legacy), "p").unwrap();
    assert_eq!((s.height, migrated), (77, Some(77)));
    assert_eq!(load_scan_height(&conn).unwrap(), 77);
    // the stored checkpoint now wins over the legacy file
    let legacy = ScanSettings { height: 90, ..Default::default() }.encode();
    let (s, migrated, _) = open_settings(&mut conn, LegacySettings::Read(legacy), "p").unwrap();
    assert_eq!((s.height, migrated), (77, None));
}

#[test]
fn opening_infers_the_checkpoint_and_raises_the_account_counter() {
    let mut conn = fresh();
    conn.execute("INSERT INTO coin_transfer (height,from_aid,to_aid,coin_type,coin_amt) VALUES (456,1,2,1,10000)", ())
        .unwrap();
    add_account(&conn, 12, "x");
    let (s, migrated, _) = open_settings(&mut conn, LegacySettings::Missing, "p").unwrap();
    assert_eq!((s.height, s.auto_inc_address_id, migrated), (456, 12, Some(456)));
}

#[test]
fn a_bad_stored_snapshot_stops_opening() {
    let mut conn = fresh();
    save_scan_settings_conn(&mut conn, 1, &[1, 2]).unwrap();
    assert_eq!(
        open_settings(&mut conn, LegacySettings::Missing, "p").err().unwrap(),
        "decode hascan database settings failed: unexpected end of data"
    );
}

#[test]
fn the_connection_is_configured() {
    let conn = Connection::open_in_memory().unwrap();
    configure_connection(&conn, "FULL").unwrap();
    let mode: i64 = conn.query_row("PRAGMA synchronous", [], |r| r.get(0)).unwrap();
    assert_eq!(mode, 2);
}

#[test]
fn index_rows_are_written_and_paged() {
    let mut conn = fresh();
    add_account(&conn, 1, "alice");
    add_account(&conn, 2, "bob");
    let mut s = ScanSettings::default();
    let tx = conn.transaction().unwrap();
    record_index_row(&tx, &mut s, 10, &IndexRow::Transfer { from_aid: 1, to_aid: 2, coin_type: COINTY_SAT, amount: 70 })
        .unwrap();
    record_index_row(&tx, &mut s, 11, &IndexRow::Transfer { from_aid: 2, to_aid: 1, coin_type: COINTY_SAT, amount: 5 })
        .unwrap();
    record_index_row(&tx, &mut s, 11, &IndexRow::ChannelOpen { left_aid: 1, right_aid: 2, channel_id: vec![0xab], notes: "1,2".into() })
        .unwrap();
    record_index_row(&tx, &mut s, 12, &IndexRow::ChannelClose { main_aid: 2, channel_id: vec![0xab] }).unwrap();
    let asset = AssetCreated {
        serial: 1,
        issuer_aid: 1,
        ticket: "TK".into(),
        name: "Token".into(),
        decimal: 8,
        supply: "1000".into(),
        protocol_cost: "1:248".into(),
    };
    record_index_row(&tx, &mut s, 12, &IndexRow::AssetCreate(asset)).unwrap();
    let deploy = ContractDeployed { address: "c1".into(), deployer_aid: 2, nonce: 3, code_size: 100, protocol_cost: "0".into() };
    record_index_row(&tx, &mut s, 13, &IndexRow::ContractDeploy(deploy)).unwrap();
    let upd = ContractUpdated { address: "c1".into(), updater_aid: 2, edit_size: 4, protocol_cost: "0".into() };
    record_index_row(&tx, &mut s, 14, &IndexRow::ContractUpdate(upd)).unwrap();
    tx.commit().unwrap();
    assert_eq!(s.chain_active.lists[0].trssat, 2);
    assert_eq!(s.chain_active.lists[0].mvsat, 75);

    let page = coin_transfer(&conn, 15, 0, None).unwrap();
    assert_eq!(page.list, vec![(11, 2, 1, COINTY_SAT, 5), (10, 1, 2, COINTY_SAT, 70)]);
    assert_eq!(page.addrs.len(), 2);
    let page = coin_transfer(&conn, 15, 0, Some((TransferFilter::From, "alice"))).unwrap();
    assert_eq!(page.list, vec![(10, 1, 2, COINTY_SAT, 70)]);
    let page = coin_transfer(&conn, 1, 1, Some((TransferFilter::Both, "bob"))).unwrap();
    assert_eq!(page.list, vec![(10, 1, 2, COINTY_SAT, 70)]);
    let page = coin_transfer(&conn, 15, 0, Some((TransferFilter::To, "nobody"))).unwrap();
    assert!(page.list.is_empty() && page.addrs.is_empty());

    let page = defi_operate(&conn, 15, 0, Some("alice")).unwrap();
    assert_eq!(page.list, vec![(11, 1, 1, 2, "AB".to_owned(), "1,2".to_owned())]);
    let page = defi_operate(&conn, 15, 0, None).unwrap();
    assert_eq!(page.list.len(), 2);
    assert_eq!(page.list[0], (12, 2, 2, 0, "AB".to_owned(), String::new()));

    let page = ecosystem_assets(&conn, 15, 0).unwrap();
    assert_eq!(page.list.len(), 1);
    assert_eq!(page.list[0].3, "TK");
    assert_eq!(page.addrs, vec![(1, "alice".to_owned())]);
    let page = ecosystem_contracts(&conn, 15, 0).unwrap();
    assert_eq!(page.list, vec![("c1".to_owned(), 13, 2, 3, 100, "0".to_owned())]);
    let updates: i64 = conn.query_row("SELECT COUNT(*) FROM contract_update", [], |r| r.get(0)).unwrap();
    assert_eq!(updates, 1);
}

#[test]
fn a_failed_row_write_leaves_the_snapshot_unchanged() {
    let mut conn = Connection::open_in_memory().unwrap();
    let mut s = ScanSettings::default();
    let tx = conn.transaction().unwrap();
    // no tables: the insert fails before anything is counted
    let r = record_index_row(&tx, &mut s, 1, &IndexRow::Transfer { from_aid: 1, to_aid: 2, coin_type: COINTY_SAT, amount: 1 });
    assert!(r.is_err());
    assert_eq!(s, ScanSettings::default());
}

#[test]
fn integers_above_i64_max_are_refused() {
    let mut conn = fresh();
    assert!(save_scan_height_conn(&conn, u64::MAX).is_err());
    assert!(save_scan_settings_conn(&mut conn, 1 << 63, &[1]).is_err());
    assert_eq!(load_scan_height(&conn).unwrap(), 0);
    assert!(coin_transfer(&conn, u64::MAX, 0, None).is_err());
    assert!(defi_operate(&conn, 1, 1 << 63, None).is_err());
    assert!(ecosystem_assets(&conn, 1 << 63, 0).is_err());
    assert!(ecosystem_contracts(&conn, 1, u64::MAX).is_err());
    assert!(query_address_map(&conn, &vec![1, u64::MAX]).is_err());
    // an unknown filtered account answers an empty page before any paging
    assert!(coin_transfer(&conn, u64::MAX, 0, Some((TransferFilter::From, "nobody"))).unwrap().list.is_empty());
}
