use hascan::database::{ddl_statements, height_key, settings_key, startup_state, status_select_sql};
use hascan::index::{row_insert, IndexRow, RowInsert};
use hascan::query::{assets_sql, contracts_sql, defi_query, transfer_query};
use hascan::scan::account_id;
use hascan::server::TransferFilter;
use hascan::setting::{BalanceRankingList, RankBalance, ScanSettings};

#[test]
fn transfer_queries_follow_the_looked_up_account() {
    assert_eq!(transfer_query(Some((TransferFilter::From, None))), None);
    assert_eq!(
        transfer_query(Some((TransferFilter::To, Some(9)))).unwrap(),
        "SELECT height,from_aid,to_aid,coin_type,coin_amt FROM coin_transfer WHERE to_aid = 9 ORDER BY height DESC,id DESC LIMIT ?1 OFFSET ?2"
    );
    assert!(transfer_query(None).unwrap().contains("WHERE 1 = 1"));
    assert_eq!(defi_query(Some(None)), None);
    assert!(defi_query(Some(Some(4))).unwrap().contains("WHERE (aid1 = 4 OR aid2 = 4)"));
    assert!(assets_sql().contains("ORDER BY height DESC,serial DESC"));
    assert!(contracts_sql().contains("ORDER BY height DESC,address DESC"));
}

#[test]
fn rows_go_to_their_tables_with_their_columns() {
    let t = IndexRow::Transfer { from_aid: 1, to_aid: 7, coin_type: 1, amount: 10000 };
    match row_insert(100, &t) {
        RowInsert::CoinTransfer { height, from_aid, to_aid, coin_type, coin_amt } => {
            assert_eq!((height, from_aid, to_aid, coin_type, coin_amt), (100, 1, 7, 1, 10000))
        },
        other => panic!("unexpected {other:?}"),
    }
    let c = IndexRow::ChannelClose { main_aid: 3, channel_id: vec![5] };
    match row_insert(8, &c) {
        RowInsert::DefiOperate { height, kind, aid1, aid2, tarid, data } => {
            assert_eq!((height, kind, aid1, aid2, tarid, data), (8, 2, 3, 0, &[5u8][..], ""))
        },
        other => panic!("unexpected {other:?}"),
    }
}

#[test]
fn startup_takes_the_database_checkpoint_and_account_ids() {
    let s = ScanSettings { height: 5, auto_inc_address_id: 2, ..Default::default() };
    let (r, m) = startup_state(s.clone(), 40, 0, 9).unwrap();
    assert_eq!((r.height, r.auto_inc_address_id, m), (40, 9, None));
    let (r, m) = startup_state(s.clone(), 0, 99, 1).unwrap();
    assert_eq!((r.height, r.auto_inc_address_id, m), (5, 2, Some(5)));
    let (r, m) = startup_state(ScanSettings::default(), 0, 99, 0).unwrap();
    assert_eq!((r.height, m), (99, Some(99)));
    assert_eq!(startup_state(s, 1 << 40, 0, 0).unwrap_err(), "hascan database checkpoint exceeds Uint5");
}

#[test]
fn account_ids_come_from_cache_store_or_counter() {
    let mut s = ScanSettings { auto_inc_address_id: 4, ..Default::default() };
    assert_eq!(account_id(Some(2), Some(3), &mut s), Ok((false, 2)));
    assert_eq!(account_id(None, Some(3), &mut s), Ok((false, 3)));
    assert_eq!(s.auto_inc_address_id, 4);
    assert_eq!(account_id(None, None, &mut s), Ok((true, 5)));
    assert_eq!(s.auto_inc_address_id, 5);
}

#[test]
fn schema_keys_and_ranking_lists() {
    assert_eq!(ddl_statements().len(), 13);
    assert!(ddl_statements()[12].contains("scan_status"));
    assert_eq!((height_key(), settings_key()), ("height", "settings"));
    assert_eq!(status_select_sql(), "SELECT v FROM scan_status WHERE k = ?1");
    let l = BalanceRankingList { count: 9, lists: vec![RankBalance { addr: vec![1; 21], amount: 300 }] };
    let mut bytes = Vec::new();
    l.encode_to(&mut bytes);
    bytes.push(77);
    let (back, used) = BalanceRankingList::decode(&bytes).unwrap();
    assert_eq!(used, 30);
    assert_eq!(back.count, 1);
    assert_eq!(back.lists, l.lists);
    assert!(BalanceRankingList::decode(&bytes[..10]).is_err());
}
