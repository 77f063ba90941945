use hascan::active::{record_current_active, update_chain_active};
use hascan::scan::{
    add_block_reward, batch_end, begin_block, catch_up_target, finish_block, next_account_id,
    record_block_transactions, validate_next_height,
};
use hascan::setting::{ActiveItem, ChainActiveList, ScanSettings};
use hascan::transfer::{
    add_uint12, add_uint16, add_uint4, add_uint8, record_transfer_activity, COINTY_DIA, COINTY_SAT,
    COINTY_ZHU, UINT12_MAX,
};

#[test]
fn rejects_block_gaps() {
    assert!(validate_next_height(42, 43).is_ok());
    assert!(validate_next_height(42, 44).is_err());
    // Replayed blocks are harmless; do_scan returns before writing them.
    assert!(validate_next_height(42, 42).is_ok());
}

#[test]
fn gap_error_names_both_heights() {
    assert_eq!(
        validate_next_height(42, 44).unwrap_err(),
        "hascan block gap: expected height 43, received 44"
    );
    assert!(validate_next_height(u64::MAX, u64::MAX).is_ok());
}

#[test]
fn begin_block_skips_replays_and_takes_the_next_height() {
    assert_eq!(begin_block(10, 9), Ok(false));
    assert_eq!(begin_block(10, 10), Ok(false));
    assert_eq!(begin_block(10, 11), Ok(true));
    assert!(begin_block(10, 12).is_err());
}

#[test]
fn block_reward_total_overflow_is_an_error() {
    assert_eq!(add_block_reward(5, 7), Ok(12));
    assert_eq!(add_block_reward(u64::MAX, 1).unwrap_err(), "hascan block reward overflow");
}

#[test]
fn sections_cover_2000_blocks_newest_first() {
    let mut s = ScanSettings::default();
    assert_eq!(record_current_active(&mut s, 1).secnum, 1);
    assert_eq!(record_current_active(&mut s, 2000).secnum, 1);
    assert_eq!(s.chain_active.lists.len(), 1);
    assert_eq!(record_current_active(&mut s, 2001).secnum, 2);
    assert_eq!(s.chain_active.count, 2);
    assert_eq!(s.chain_active.lists[0].secnum, 2);
    assert_eq!(s.chain_active.lists[1].secnum, 1);
    // height 0 counts as section 1
    let mut t = ScanSettings::default();
    assert_eq!(record_current_active(&mut t, 0).secnum, 1);
}

#[test]
fn making_a_section_current_twice_changes_nothing() {
    let mut s = ScanSettings::default();
    record_current_active(&mut s, 4500);
    let once = s.clone();
    record_current_active(&mut s, 4500);
    assert_eq!(s, once);
}

#[test]
fn at_most_25_sections_are_kept() {
    let mut s = ScanSettings::default();
    for k in 0..30u64 {
        record_current_active(&mut s, k * 2000 + 1);
    }
    assert_eq!(s.chain_active.lists.len(), 25);
    assert_eq!(s.chain_active.count, 25);
    assert_eq!(s.chain_active.lists[0].secnum, 30);
    assert_eq!(s.chain_active.lists[24].secnum, 6);
}

#[test]
fn new_accounts_are_counted_in_the_section() {
    let mut s = ScanSettings::default();
    update_chain_active(&mut s, 3, 10).unwrap();
    update_chain_active(&mut s, 4, 11).unwrap();
    assert_eq!(s.chain_active.lists[0].newadr, 7);
    let mut full = ScanSettings {
        chain_active: ChainActiveList {
            count: 1,
            lists: vec![ActiveItem { secnum: 1, newadr: u32::MAX, ..Default::default() }],
        },
        ..Default::default()
    };
    assert_eq!(update_chain_active(&mut full, 1, 5).unwrap_err(), "hascan new address count overflow");
}

#[test]
fn block_transactions_skip_the_coinbase() {
    let mut s = ScanSettings::default();
    record_block_transactions(&mut s, 1, 5).unwrap();
    assert_eq!(s.chain_active.lists[0].txs, 4);
    record_block_transactions(&mut s, 2, 0).unwrap();
    assert_eq!(s.chain_active.lists[0].txs, 4);
    let mut full = ScanSettings {
        chain_active: ChainActiveList {
            count: 1,
            lists: vec![ActiveItem { secnum: 1, txs: u32::MAX, ..Default::default() }],
        },
        ..Default::default()
    };
    assert_eq!(record_block_transactions(&mut full, 3, 2).unwrap_err(), "hascan transaction count overflow");
}

#[test]
fn finishing_a_block_moves_the_checkpoint() {
    let mut s = ScanSettings { height: 9, auto_inc_address_id: 12, ..Default::default() };
    finish_block(&mut s, 10, 10).unwrap();
    assert_eq!(s.height, 10);
    assert_eq!(s.chain_active.lists[0].newadr, 2);
    let mut bad = ScanSettings { auto_inc_address_id: 3, ..Default::default() };
    assert_eq!(finish_block(&mut bad, 4, 1).unwrap_err(), "hascan new address count overflow");
    assert_eq!(bad.height, 0);
    let mut tall = ScanSettings::default();
    assert_eq!(finish_block(&mut tall, 0, 1 << 40).unwrap_err(), "hascan block height exceeds Uint5");
}

#[test]
fn account_ids_count_up_within_five_bytes() {
    let mut s = ScanSettings::default();
    assert_eq!(next_account_id(&mut s), Ok(1));
    assert_eq!(next_account_id(&mut s), Ok(2));
    assert_eq!(s.auto_inc_address_id, 2);
    let mut top = ScanSettings { auto_inc_address_id: (1 << 40) - 1, ..Default::default() };
    assert_eq!(next_account_id(&mut top).unwrap_err(), "hascan account ID exceeds Uint5");
    assert_eq!(top.auto_inc_address_id, (1 << 40) - 1);
}

#[test]
fn catch_up_works_in_batches_up_to_the_target() {
    assert_eq!(catch_up_target(500, 0), 500);
    assert_eq!(catch_up_target(500, 300), 300);
    assert_eq!(catch_up_target(200, 300), 200);
    assert_eq!(batch_end(100, 200, 1000), 300);
    assert_eq!(batch_end(100, 200, 250), 250);
    assert_eq!(batch_end(u64::MAX - 1, 200, u64::MAX), u64::MAX);
}

#[test]
fn transfers_are_counted_per_coin() {
    let mut s = ScanSettings::default();
    record_transfer_activity(&mut s, 1, COINTY_ZHU, 20000).unwrap();
    record_transfer_activity(&mut s, 1, COINTY_SAT, 5).unwrap();
    record_transfer_activity(&mut s, 1, COINTY_DIA, 2).unwrap();
    record_transfer_activity(&mut s, 1, COINTY_DIA, 1).unwrap();
    let a = s.chain_active.lists[0];
    assert_eq!((a.trszhu, a.mvzhu), (1, 20000));
    assert_eq!((a.trssat, a.mvsat), (1, 5));
    assert_eq!((a.trsdia, a.mvdia), (2, 3));
}

#[test]
fn counter_overflow_names_the_counter() {
    let mut v: u32 = u32::MAX;
    assert_eq!(add_uint4(&mut v, 1, "HAC transfer count").unwrap_err(), "hascan HAC transfer count overflow");
    assert_eq!(v, u32::MAX);
    let mut w: u64 = u64::MAX;
    assert!(add_uint8(&mut w, 1, "diamond transfer amount").is_err());
    let mut x: u128 = UINT12_MAX;
    assert_eq!(add_uint12(&mut x, 1, "SAT transfer amount").unwrap_err(), "hascan SAT transfer amount overflow");
    let mut y: u128 = UINT12_MAX;
    assert!(add_uint16(&mut y, 1, "HAC transfer amount").is_ok());
    assert_eq!(y, UINT12_MAX + 1);
}

#[test]
fn block_updates_keep_the_snapshot_encodable() {
    let mut s = ScanSettings::default();
    for height in 1..=4100u64 {
        assert_eq!(begin_block(s.height, height), Ok(true));
        let before = s.auto_inc_address_id;
        next_account_id(&mut s).unwrap();
        record_block_transactions(&mut s, height, 3).unwrap();
        record_transfer_activity(&mut s, height, COINTY_SAT, 1_000_000).unwrap();
        finish_block(&mut s, before, height).unwrap();
        assert!(s.is_encodable());
    }
    assert_eq!(s.height, 4100);
    assert_eq!(s.chain_active.count, 3);
    assert_eq!(s.chain_active.lists[2].newadr, 2000);
    let data = s.encode();
    assert_eq!(hascan::setting::decode_settings(&data, "db").unwrap(), s);
}
