use std::collections::HashSet;

use hascan::config::BlkScrConfig;
use hascan::scaner::BlkScaner;
use hascan::server::{
    address_list, address_map_sql, check_address_count, defi_condition, defi_filter, defi_sql, pagination,
    routes, transfer_condition, transfer_filter, transfer_sql, ApiCtx, CoinKind, RouteKind, TransferFilter,
};
use hascan::setting::{ActiveItem, BalanceRankingList, ChainActiveList, RankBalance, ScanSettings};
use hascan::text::{decimal_string, parse_u64, split_list, to_ascii_uppercase};

#[test]
fn pagination_validates_bounds_and_input() {
    assert_eq!(pagination(None, None).unwrap(), (15, 0));
    assert_eq!(pagination(Some("200"), Some("3")).unwrap(), (200, 400));
    assert!(pagination(Some("201"), None).is_err());
    assert!(pagination(None, Some("0")).is_err());
    assert!(pagination(Some("nope"), None).is_err());
    assert!(pagination(None, Some(&u64::MAX.to_string())).is_err());
}

#[test]
fn explorer_routes_are_unique_and_prefixed() {
    let scaner = BlkScaner::new(BlkScrConfig::default(), ScanSettings::default());
    let routes = scaner.api_service().routes();
    let paths: HashSet<_> = routes.iter().map(|route| route.path.as_str()).collect();
    assert_eq!(paths.len(), routes.len());
    assert!(paths.iter().all(|path| path.starts_with("/explorer/")));
}

#[test]
fn pagination_errors_say_what_is_wrong() {
    assert_eq!(pagination(Some("0"), None).unwrap_err(), "limit must be between 1 and 200");
    assert_eq!(pagination(None, Some("x")).unwrap_err(), "page must be an unsigned integer");
    assert_eq!(pagination(Some("-1"), None).unwrap_err(), "limit must be an unsigned integer");
    assert_eq!(pagination(None, Some("0")).unwrap_err(), "page must be greater than zero");
    assert_eq!(pagination(Some("200"), Some("46116860184273881")).unwrap_err(), "page and limit are too large");
    assert_eq!(pagination(Some("200"), Some("46116860184273880")).unwrap(), (200, 9223372036854775800));
    assert_eq!(pagination(Some("1"), Some("+4")).unwrap(), (1, 3));
}

#[test]
fn the_route_table_lists_eight_routes_in_order() {
    let r = routes();
    assert_eq!(r.len(), 8);
    assert_eq!(r[0].path, "/explorer/status");
    assert_eq!(r[0].kind, RouteKind::Status);
    assert_eq!(r[7].path, "/explorer/query/ecosystem/contracts");
    assert_eq!(r[7].kind, RouteKind::EcosystemContracts);
    assert_eq!(BlkScaner::new(BlkScrConfig::default(), ScanSettings::default()).name(), "hascan");
}

#[test]
fn transfer_filter_takes_the_first_nonempty_parameter() {
    assert_eq!(transfer_filter(Some(""), Some("b"), Some("c")), Some((TransferFilter::To, "b")));
    assert_eq!(transfer_filter(Some("a"), Some("b"), None), Some((TransferFilter::From, "a")));
    assert_eq!(transfer_filter(None, None, Some("c")), Some((TransferFilter::Both, "c")));
    assert_eq!(transfer_filter(None, Some(""), None), None);
    assert_eq!(defi_filter(Some("")), None);
    assert_eq!(defi_filter(Some("x")), Some("x"));
}

#[test]
fn query_conditions_and_sql() {
    assert_eq!(transfer_condition(None), "1 = 1");
    assert_eq!(transfer_condition(Some((TransferFilter::From, 12))), "from_aid = 12");
    assert_eq!(transfer_condition(Some((TransferFilter::To, 0))), "to_aid = 0");
    assert_eq!(transfer_condition(Some((TransferFilter::Both, 7))), "(from_aid = 7 OR to_aid = 7)");
    assert_eq!(defi_condition(Some(5)), "(aid1 = 5 OR aid2 = 5)");
    assert_eq!(
        transfer_sql("1 = 1"),
        "SELECT height,from_aid,to_aid,coin_type,coin_amt FROM coin_transfer WHERE 1 = 1 ORDER BY height DESC,id DESC LIMIT ?1 OFFSET ?2"
    );
    assert_eq!(
        defi_sql("1 = 1"),
        "SELECT height,kind,aid1,aid2,hex(tarid),data FROM defi_operate WHERE 1 = 1 ORDER BY height DESC,id DESC LIMIT ?1 OFFSET ?2"
    );
    assert_eq!(address_map_sql(3), "SELECT id,address FROM account WHERE id IN (?,?,?)");
    assert_eq!(address_map_sql(1), "SELECT id,address FROM account WHERE id IN (?)");
}

#[test]
fn address_lists_are_trimmed_and_counted() {
    assert_eq!(address_list(Some(" a , b,,c ")), vec!["a".to_owned(), "b".to_owned(), "c".to_owned()]);
    assert_eq!(address_list(None), Vec::<String>::new());
    assert_eq!(split_list(" , "), Vec::<String>::new());
    assert!(check_address_count(1).is_ok());
    assert!(check_address_count(200).is_ok());
    assert_eq!(check_address_count(0).unwrap_err(), "address count must be between 1 and 200");
    assert!(check_address_count(201).is_err());
}

fn ranked(n: usize) -> BalanceRankingList {
    let lists: Vec<RankBalance> =
        (0..n).map(|i| RankBalance { addr: vec![i as u8; 21], amount: 1000 - i as u64 }).collect();
    BalanceRankingList { count: n as u8, lists }
}

#[test]
fn ranking_top100_picks_the_coin_and_the_first_100() {
    let setting = ScanSettings { rank_zhu: ranked(150), rank_dia: ranked(3), ..Default::default() };
    let none = None;
    let ctx = ApiCtx { setting: &setting, last_error: &none };
    let hac = ctx.ranking_top100(None).unwrap();
    assert_eq!(hac.coin, CoinKind::Hac);
    assert_eq!(hac.entries.len(), 100);
    assert_eq!(hac.entries[0].amount, 1000);
    let hacd = ctx.ranking_top100(Some("hacd")).unwrap();
    assert_eq!(hacd.coin, CoinKind::Hacd);
    assert_eq!(hacd.entries.len(), 3);
    let btc = ctx.ranking_top100(Some("Btc")).unwrap();
    assert_eq!(btc.coin, CoinKind::Btc);
    assert!(btc.entries.is_empty());
    assert_eq!(ctx.ranking_top100(Some("ETH")).unwrap_err(), "coin must be HAC, BTC, or HACD");
}

#[test]
fn status_reports_checkpoint_and_error() {
    let setting = ScanSettings { height: 321, ..Default::default() };
    let none = None;
    let status = ApiCtx { setting: &setting, last_error: &none }.status();
    assert_eq!((status.height, status.healthy, status.error), (321, true, None));
    let err = Some("boom".to_owned());
    let status = ApiCtx { setting: &setting, last_error: &err }.status();
    assert!(!status.healthy);
    assert_eq!(status.error.as_deref(), Some("boom"));
}

#[test]
fn chain_active_lists_the_sections() {
    let a = ActiveItem { secnum: 3, txs: 9, ..Default::default() };
    let setting = ScanSettings { chain_active: ChainActiveList { count: 1, lists: vec![a] }, ..Default::default() };
    let none = None;
    assert_eq!(ApiCtx { setting: &setting, last_error: &none }.chain_active(), vec![a]);
}

#[test]
fn indexer_state_tracks_target_and_errors() {
    let cnf = BlkScrConfig::new("data".to_owned(), "full", 50, 0).unwrap();
    let mut scaner = BlkScaner::new(cnf, ScanSettings { height: 100, ..Default::default() });
    assert_eq!(scaner.catch_up_target(500), 500);
    assert_eq!(scaner.next_batch_end(500), 150);
    assert!(scaner.behind(101));
    assert!(!scaner.behind(100));
    scaner.set_error(Some("x".to_owned()));
    assert_eq!(scaner.api_ctx().status().error.as_deref(), Some("x"));
}

#[test]
fn configuration_is_normalized_and_checked() {
    let c = BlkScrConfig::new("d".to_owned(), "normal", 0, 7).unwrap();
    assert_eq!(c.synchronous, "NORMAL");
    assert_eq!(c.scan_batch_blocks, 1);
    assert_eq!(c.stop_at_height, 7);
    assert_eq!(BlkScrConfig::new("d".to_owned(), "Extra", 5000, 0).unwrap().scan_batch_blocks, 1000);
    assert_eq!(
        BlkScrConfig::new("d".to_owned(), "fast", 5, 0).unwrap_err(),
        "config [hascan].synchronous must be OFF, NORMAL, FULL, or EXTRA"
    );
    let d = c.duplicate();
    assert_eq!(d.datadir, "d");
}

#[test]
fn text_helpers() {
    assert_eq!(decimal_string(0), "0");
    assert_eq!(decimal_string(1234567890), "1234567890");
    assert_eq!(parse_u64("18446744073709551615"), Some(u64::MAX));
    assert_eq!(parse_u64("18446744073709551616"), None);
    assert_eq!(parse_u64(""), None);
    assert_eq!(parse_u64("+7"), Some(7));
    assert_eq!(to_ascii_uppercase("hAcd-é"), "HACD-é");
}
