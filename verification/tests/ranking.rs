use hascan::ranking::{truncate_rank, update_one_rank, update_ranking, AccountBalance, BalanceUpdate};
use hascan::setting::{BalanceRankingList, ScanSettings};
use hascan::transfer::{plan_action, ActionInfo, ActionPlan, Party, COINTY_DIA, COINTY_SAT, COINTY_ZHU};

fn addr(b: u8) -> Vec<u8> {
    vec![b; 21]
}

fn amounts(l: &BalanceRankingList) -> Vec<(u8, u64)> {
    l.lists.iter().map(|e| (e.addr[0], e.amount)).collect()
}

fn update(b: u8, zhu: Result<u64, String>, satoshi: u64, diamond: u64) -> BalanceUpdate {
    BalanceUpdate { address: addr(b), balance: Some(AccountBalance { zhu, satoshi, diamond }) }
}

#[test]
fn a_ranking_is_highest_first_and_holds_each_address_once() {
    let mut l = BalanceRankingList::default();
    update_one_rank(&mut l, &addr(1), 50);
    update_one_rank(&mut l, &addr(2), 80);
    update_one_rank(&mut l, &addr(3), 50);
    assert_eq!(amounts(&l), vec![(2, 80), (1, 50), (3, 50)]);
    update_one_rank(&mut l, &addr(1), 90);
    assert_eq!(amounts(&l), vec![(1, 90), (2, 80), (3, 50)]);
    update_one_rank(&mut l, &addr(2), 0);
    assert_eq!(amounts(&l), vec![(1, 90), (3, 50)]);
}

#[test]
fn a_ranking_keeps_200_entries() {
    let mut l = BalanceRankingList::default();
    for i in 0..250u64 {
        let mut a = addr(0);
        a[0] = (i % 256) as u8;
        a[1] = (i / 256) as u8;
        update_one_rank(&mut l, &a, 1000 + i);
    }
    assert_eq!(l.lists.len(), 250);
    truncate_rank(&mut l);
    assert_eq!(l.lists.len(), 200);
    assert_eq!(l.count, 200);
    assert_eq!(l.lists[0].amount, 1249);
}

#[test]
fn a_refresh_updates_all_three_rankings() {
    let mut s = ScanSettings::default();
    let updates = vec![update(1, Ok(100), 7, 0), update(2, Ok(300), 0, 2), BalanceUpdate { address: addr(3), balance: None }];
    update_ranking(&mut s, &updates).unwrap();
    assert_eq!(amounts(&s.rank_zhu), vec![(2, 300), (1, 100)]);
    assert_eq!(amounts(&s.rank_sat), vec![(1, 7)]);
    assert_eq!(amounts(&s.rank_dia), vec![(2, 2)]);
    assert_eq!((s.rank_zhu.count, s.rank_sat.count, s.rank_dia.count), (2, 1, 1));
    // an account that now holds nothing leaves the rankings
    update_ranking(&mut s, &vec![BalanceUpdate { address: addr(2), balance: None }]).unwrap();
    assert_eq!(amounts(&s.rank_zhu), vec![(1, 100)]);
    assert!(s.rank_dia.lists.is_empty());
}

#[test]
fn a_refresh_stops_at_a_hac_conversion_error() {
    let mut s = ScanSettings::default();
    let updates = vec![update(1, Ok(100), 0, 0), update(2, Err("bad amount".to_owned()), 0, 0), update(3, Ok(5), 0, 0)];
    assert_eq!(update_ranking(&mut s, &updates).unwrap_err(), "bad amount");
    assert_eq!(amounts(&s.rank_zhu), vec![(1, 100)]);
    assert_eq!(s.height, 0);
}

fn plan(a: ActionInfo) -> Result<ActionPlan, String> {
    plan_action(&a)
}

#[test]
fn hac_transfers_are_indexed_from_10000_to_10_pow_14_zhu() {
    assert!(matches!(plan(ActionInfo::HacTo { to: Ok("x".into()), zhu: Ok(9999) }), Ok(ActionPlan::Ignore)));
    assert!(matches!(
        plan(ActionInfo::HacTo { to: Ok("x".into()), zhu: Ok(100_000_000_000_001) }),
        Ok(ActionPlan::Ignore)
    ));
    match plan(ActionInfo::HacTo { to: Ok("x".into()), zhu: Ok(10000) }).unwrap() {
        ActionPlan::Transfer { from: Party::Main, to: Party::Address(t), coin_type, amount } => {
            assert_eq!((t.as_str(), coin_type, amount), ("x", COINTY_ZHU, 10000));
        },
        _ => panic!("expected a transfer"),
    }
    assert_eq!(
        plan(ActionInfo::HacFrom { from: Ok("a".into()), zhu: Err("no".into()) }).err().unwrap(),
        "hascan HAC amount conversion failed: no"
    );
}

#[test]
fn other_transfers_and_operations_are_planned() {
    match plan(ActionInfo::SatFromTo { from: Ok("a".into()), to: Ok("b".into()), satoshi: 3 }).unwrap() {
        ActionPlan::Transfer { from: Party::Address(f), to: Party::Address(t), coin_type, amount } => {
            assert_eq!((f.as_str(), t.as_str(), coin_type, amount), ("a", "b", COINTY_SAT, 3));
        },
        _ => panic!("expected a transfer"),
    }
    match plan(ActionInfo::DiaSingle { to: Ok("b".into()) }).unwrap() {
        ActionPlan::Transfer { from: Party::Main, coin_type, amount, .. } => assert_eq!((coin_type, amount), (COINTY_DIA, 1)),
        _ => panic!("expected a transfer"),
    }
    assert_eq!(
        plan(ActionInfo::DiaFrom { from: Err("bad".into()), diamonds: 2 }).err().unwrap(),
        "hascan action address failed: bad"
    );
    match plan(ActionInfo::ChannelOpen {
        left: "l".into(),
        right: "r".into(),
        channel_id: vec![1, 2],
        left_amount: "1.5".into(),
        right_amount: "2".into(),
    })
    .unwrap()
    {
        ActionPlan::ChannelOpen { notes, channel_id, .. } => {
            assert_eq!(notes, "1.5,2");
            assert_eq!(channel_id, vec![1, 2]);
        },
        _ => panic!("expected a channel opening"),
    }
    assert!(matches!(plan(ActionInfo::ChannelClose { channel_id: vec![9] }), Ok(ActionPlan::ChannelClose { .. })));
    assert!(matches!(plan(ActionInfo::DiamondMint { miner: "m".into() }), Ok(ActionPlan::MintDiamond { .. })));
    assert!(matches!(plan(ActionInfo::Other), Ok(ActionPlan::Ignore)));
}
