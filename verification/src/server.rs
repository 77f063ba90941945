//! Explorer query rules: paging, filters, the SQL they select with, the
//! route table, and the answers read from the settings snapshot.

use vstd::prelude::*;

use crate::setting::{ActiveItem, RankBalance, ScanSettings};
use crate::text::{
    ascii_upper, decimal, parse_u64, parse_u64_spec, push_decimal, split_list, split_on_comma,
    to_ascii_uppercase, trimmed_pieces,
};

verus! {

/// Rows per page when no limit is given.
pub const DEFAULT_LIMIT: u64 = 15;

/// The largest page size.
pub const MAX_LIMIT: u64 = 200;

/// The paging of a query, or the error it answers with.
pub open spec fn pagination_spec(limit: Option<Seq<char>>, page: Option<Seq<char>>) -> Result<
    (u64, u64),
    Seq<char>,
> {
    let l = match limit {
        None => Some(DEFAULT_LIMIT),
        Some(v) => parse_u64_spec(v),
    };
    let p = match page {
        None => Some(1u64),
        Some(v) => parse_u64_spec(v),
    };
    if l is None {
        Err("limit must be an unsigned integer"@)
    } else if p is None {
        Err("page must be an unsigned integer"@)
    } else if !(1 <= l->0 <= MAX_LIMIT) {
        Err("limit must be between 1 and 200"@)
    } else if p->0 == 0 {
        Err("page must be greater than zero"@)
    } else if (p->0 - 1) * l->0 > i64::MAX {
        Err("page and limit are too large"@)
    } else {
        Ok((l->0, ((p->0 - 1) * l->0) as u64))
    }
}

/// Law: an accepted paging has a limit of 1 through 200 and an offset that
/// is a whole number of pages and fits SQLite's signed integers.
pub proof fn lemma_pagination_bounds(limit: Option<Seq<char>>, page: Option<Seq<char>>)
    ensures
        pagination_spec(limit, page) matches Ok((l, o)) ==> {
            &&& 1 <= l <= MAX_LIMIT
            &&& o <= i64::MAX
            &&& o % l == 0
        },
{
    if let Ok((l, o)) = pagination_spec(limit, page) {
        let p = match page {
            None => 1u64,
            Some(v) => parse_u64_spec(v)->0,
        };
        assert(o == (p - 1) * l);
        assert(((p - 1) * l) % (l as int) == 0) by (nonlinear_arith)
            requires
                l >= 1,
                p >= 1,
        ;
    }
}

pub open spec fn opt_view(s: Option<&str>) -> Option<Seq<char>> {
    match s {
        None => None,
        Some(v) => Some(v@),
    }
}

/// Page size and row offset from the `limit` and `page` parameters: limit
/// 1 through 200 (15 when absent), page 1 or more (1 when absent), and an
/// offset `(page - 1) * limit` that SQLite can take.
pub fn pagination(limit: Option<&str>, page: Option<&str>) -> (r: Result<(u64, u64), String>)
    ensures
        match pagination_spec(opt_view(limit), opt_view(page)) {
            Ok(v) => r == Ok::<(u64, u64), String>(v),
            Err(e) => r matches Err(m) && m@ == e,
        },
{
    let limit = match limit {
        None => DEFAULT_LIMIT,
        Some(v) => match parse_u64(v) {
            Some(n) => n,
            None => return Err("limit must be an unsigned integer".to_owned()),
        },
    };
    let page = match page {
        None => 1,
        Some(v) => match parse_u64(v) {
            Some(n) => n,
            None => return Err("page must be an unsigned integer".to_owned()),
        },
    };
    if !(1 <= limit && limit <= MAX_LIMIT) {
        return Err("limit must be between 1 and 200".to_owned());
    }
    if page == 0 {
        return Err("page must be greater than zero".to_owned());
    }
    let offset = match (page - 1).checked_mul(limit) {
        Some(v) => v,
        None => return Err("page and limit are too large".to_owned()),
    };
    if offset > i64::MAX as u64 {
        return Err("page and limit are too large".to_owned());
    }
    Ok((limit, offset))
}


/// The column that a transfer query filters on.
#[derive(Clone, Copy, Debug, PartialEq, Eq)]
pub enum TransferFilter {
    From,
    To,
    Both,
}

pub open spec fn given(s: Option<&str>) -> bool {
    s matches Some(v) && v@.len() > 0
}

/// The first of `from`, `to` and `both` that is given and not empty.
pub open spec fn transfer_filter_spec(from: Option<&str>, to: Option<&str>, both: Option<&str>) -> Option<
    (TransferFilter, Seq<char>),
> {
    if given(from) {
        Some((TransferFilter::From, from->0@))
    } else if given(to) {
        Some((TransferFilter::To, to->0@))
    } else if given(both) {
        Some((TransferFilter::Both, both->0@))
    } else {
        None
    }
}

/// Picks the address filter of a transfer query: `from`, else `to`, else
/// `both`, skipping absent and empty parameters.
pub fn transfer_filter<'a>(from: Option<&'a str>, to: Option<&'a str>, both: Option<&'a str>) -> (r:
    Option<(TransferFilter, &'a str)>)
    ensures
        match transfer_filter_spec(from, to, both) {
            None => r is None,
            Some((f, a)) => r matches Some((g, b)) && g == f && b@ == a,
        },
{
    if let Some(v) = from {
        if !v.is_empty() {
            return Some((TransferFilter::From, v));
        }
    }
    if let Some(v) = to {
        if !v.is_empty() {
            return Some((TransferFilter::To, v));
        }
    }
    if let Some(v) = both {
        if !v.is_empty() {
            return Some((TransferFilter::Both, v));
        }
    }
    None
}

/// The `WHERE` condition of a transfer query on an account id.
pub open spec fn transfer_condition_spec(f: Option<(TransferFilter, u64)>) -> Seq<char> {
    match f {
        None => "1 = 1"@,
        Some((TransferFilter::From, id)) => "from_aid = "@ + decimal(id as nat),
        Some((TransferFilter::To, id)) => "to_aid = "@ + decimal(id as nat),
        Some((TransferFilter::Both, id)) => "(from_aid = "@ + decimal(id as nat) + " OR to_aid = "@
            + decimal(id as nat) + ")"@,
    }
}

pub fn transfer_condition(f: Option<(TransferFilter, u64)>) -> (r: String)
    ensures
        r@ == transfer_condition_spec(f),
{
    match f {
        None => "1 = 1".to_owned(),
        Some((TransferFilter::From, id)) => {
            let mut s = "from_aid = ".to_owned();
            push_decimal(&mut s, id);
            s
        },
        Some((TransferFilter::To, id)) => {
            let mut s = "to_aid = ".to_owned();
            push_decimal(&mut s, id);
            s
        },
        Some((TransferFilter::Both, id)) => {
            let mut s = "(from_aid = ".to_owned();
            push_decimal(&mut s, id);
            s.append(" OR to_aid = ");
            push_decimal(&mut s, id);
            s.append(")");
            s
        },
    }
}

/// The page query of transfers under a condition, newest first; `?1` is
/// the limit, `?2` the offset.
pub open spec fn transfer_sql_spec(condition: Seq<char>) -> Seq<char> {
    "SELECT height,from_aid,to_aid,coin_type,coin_amt FROM coin_transfer WHERE "@ + condition
        + " ORDER BY height DESC,id DESC LIMIT ?1 OFFSET ?2"@
}

/// The page query of transfers, newest first; `?1` is the limit, `?2` the
/// offset.
pub fn transfer_sql(condition: &str) -> (r: String)
    ensures
        r@ == transfer_sql_spec(condition@),
{
    let mut s = "SELECT height,from_aid,to_aid,coin_type,coin_amt FROM coin_transfer WHERE ".to_owned();
    s.append(condition);
    s.append(" ORDER BY height DESC,id DESC LIMIT ?1 OFFSET ?2");
    s
}

/// The address filter of a DeFi query: `both` when given and not empty.
pub fn defi_filter<'a>(both: Option<&'a str>) -> (r: Option<&'a str>)
    ensures
        given(both) ==> r == both,
        !given(both) ==> r is None,
{
    match both {
        Some(v) => if v.is_empty() {
            None
        } else {
            Some(v)
        },
        None => None,
    }
}

/// The `WHERE` condition of a DeFi query on an account id.
pub open spec fn defi_condition_spec(id: Option<u64>) -> Seq<char> {
    match id {
        None => "1 = 1"@,
        Some(id) => "(aid1 = "@ + decimal(id as nat) + " OR aid2 = "@ + decimal(id as nat) + ")"@,
    }
}

pub fn defi_condition(id: Option<u64>) -> (r: String)
    ensures
        r@ == defi_condition_spec(id),
{
    match id {
        None => "1 = 1".to_owned(),
        Some(id) => {
            let mut s = "(aid1 = ".to_owned();
            push_decimal(&mut s, id);
            s.append(" OR aid2 = ");
            push_decimal(&mut s, id);
            s.append(")");
            s
        },
    }
}

/// The page query of DeFi operations under a condition, newest first; `?1`
/// is the limit, `?2` the offset.
pub open spec fn defi_sql_spec(condition: Seq<char>) -> Seq<char> {
    "SELECT height,kind,aid1,aid2,hex(tarid),data FROM defi_operate WHERE "@ + condition
        + " ORDER BY height DESC,id DESC LIMIT ?1 OFFSET ?2"@
}

/// The page query of DeFi operations, newest first; `?1` is the limit,
/// `?2` the offset.
pub fn defi_sql(condition: &str) -> (r: String)
    ensures
        r@ == defi_sql_spec(condition@),
{
    let mut s = "SELECT height,kind,aid1,aid2,hex(tarid),data FROM defi_operate WHERE ".to_owned();
    s.append(condition);
    s.append(" ORDER BY height DESC,id DESC LIMIT ?1 OFFSET ?2");
    s
}

/// `n` parameter marks separated by commas.
pub open spec fn placeholders(n: nat) -> Seq<char>
    decreases n,
{
    if n == 0 {
        Seq::empty()
    } else if n == 1 {
        "?"@
    } else {
        placeholders((n - 1) as nat) + ","@ + "?"@
    }
}

/// The query of the addresses of `n` account ids.
pub fn address_map_sql(n: usize) -> (r: String)
    ensures
        r@ == "SELECT id,address FROM account WHERE id IN ("@ + placeholders(n as nat) + ")"@,
{
    let mut s = "SELECT id,address FROM account WHERE id IN (".to_owned();
    let ghost head = s@;
    let mut i: usize = 0;
    while i < n
        invariant
            i <= n,
            s@ == head + placeholders(i as nat),
        decreases n - i,
    {
        if i > 0 {
            s.append(",");
        }
        s.append("?");
        i = i + 1;
        assert(s@ =~= head + placeholders(i as nat));
    }
    s.append(")");
    s
}


/// What an explorer route answers.
#[derive(Clone, Copy, Debug, PartialEq, Eq)]
pub enum RouteKind {
    Status,
    RankingTop100,
    ChainActive,
    CoinTransfer,
    DefiOperate,
    AddressCount,
    EcosystemAssets,
    EcosystemContracts,
}

/// A GET route of the explorer.
#[derive(Debug)]
pub struct ExplorerRoute {
    pub path: String,
    pub kind: RouteKind,
}

/// The explorer's routes, in order.
pub open spec fn route_table() -> Seq<(Seq<char>, RouteKind)> {
    seq![
        ("/explorer/status"@, RouteKind::Status),
        ("/explorer/query/ranking/top100"@, RouteKind::RankingTop100),
        ("/explorer/query/chain/active"@, RouteKind::ChainActive),
        ("/explorer/query/coin/transfer"@, RouteKind::CoinTransfer),
        ("/explorer/query/defi/operate"@, RouteKind::DefiOperate),
        ("/explorer/query/address/count"@, RouteKind::AddressCount),
        ("/explorer/query/ecosystem/assets"@, RouteKind::EcosystemAssets),
        ("/explorer/query/ecosystem/contracts"@, RouteKind::EcosystemContracts),
    ]
}

fn route(path: &str, kind: RouteKind) -> (r: ExplorerRoute)
    ensures
        r.path@ == path@,
        r.kind == kind,
{
    ExplorerRoute { path: path.to_owned(), kind }
}

/// The route table of the explorer service.
pub fn routes() -> (r: Vec<ExplorerRoute>)
    ensures
        r@.len() == route_table().len(),
        forall|i: int| 0 <= i < r@.len() ==> (#[trigger] r@[i].path@, r@[i].kind) == route_table()[i],
{
    let mut v: Vec<ExplorerRoute> = Vec::new();
    v.push(route("/explorer/status", RouteKind::Status));
    v.push(route("/explorer/query/ranking/top100", RouteKind::RankingTop100));
    v.push(route("/explorer/query/chain/active", RouteKind::ChainActive));
    v.push(route("/explorer/query/coin/transfer", RouteKind::CoinTransfer));
    v.push(route("/explorer/query/defi/operate", RouteKind::DefiOperate));
    v.push(route("/explorer/query/address/count", RouteKind::AddressCount));
    v.push(route("/explorer/query/ecosystem/assets", RouteKind::EcosystemAssets));
    v.push(route("/explorer/query/ecosystem/contracts", RouteKind::EcosystemContracts));
    v
}

/// Law: the explorer paths are pairwise different and all lie under
/// `/explorer/`.
pub proof fn lemma_routes_unique_and_prefixed()
    ensures
        forall|i: int, j: int|
            0 <= i < j < route_table().len() ==> #[trigger] route_table()[i].0 != #[trigger] route_table()[j].0,
        forall|i: int|
            0 <= i < route_table().len() ==> (#[trigger] route_table()[i]).0.len() >= 10
                && route_table()[i].0.take(10) == "/explorer/"@,
{
    reveal_strlit("/explorer/");
    reveal_strlit("/explorer/status");
    reveal_strlit("/explorer/query/ranking/top100");
    reveal_strlit("/explorer/query/chain/active");
    reveal_strlit("/explorer/query/coin/transfer");
    reveal_strlit("/explorer/query/defi/operate");
    reveal_strlit("/explorer/query/address/count");
    reveal_strlit("/explorer/query/ecosystem/assets");
    reveal_strlit("/explorer/query/ecosystem/contracts");
    let t = route_table();
    assert forall|i: int| 0 <= i < t.len() implies (#[trigger] t[i]).0.len() >= 10 && t[i].0.take(10)
        == "/explorer/"@ by {
        assert(t[i].0.take(10) =~= "/explorer/"@);
    }
    assert forall|i: int, j: int| 0 <= i < j < t.len() implies #[trigger] t[i].0 != #[trigger] t[j].0 by {
        if t[i].0.len() == t[j].0.len() {
            assert(t[i].0[16] != t[j].0[16] || t[i].0[22] != t[j].0[22]);
        }
    }
}

/// The explorer API service.
#[derive(Debug)]
pub struct ExplorerApi {}

impl ExplorerApi {
    /// The service name.
    pub fn name(&self) -> (r: &'static str)
        ensures
            r@ == "hascan"@,
    {
        "hascan"
    }

    /// The routes the service answers.
    pub fn routes(&self) -> (r: Vec<ExplorerRoute>)
        ensures
            r@.len() == route_table().len(),
            forall|i: int| 0 <= i < r@.len() ==> (#[trigger] r@[i].path@, r@[i].kind) == route_table()[i],
    {
        routes()
    }
}


/// The answer of the status route.
#[derive(Debug)]
pub struct ScanStatus {
    /// The durable checkpoint.
    pub height: u64,
    /// No background indexing error is pending.
    pub healthy: bool,
    pub error: Option<String>,
}

/// A ranked coin and how its amounts are shown.
#[derive(Clone, Copy, Debug, PartialEq, Eq)]
pub enum CoinKind {
    /// HAC, amounts in zhu shown in mei (divided by 10^8).
    Hac,
    /// BTC, amounts in satoshi shown in BTC (divided by 10^8).
    Btc,
    /// HACD, amounts in diamonds.
    Hacd,
}

/// The answer of the top-100 ranking route.
#[derive(Debug)]
pub struct TopRanking {
    pub coin: CoinKind,
    pub entries: Vec<RankBalance>,
}

/// What the read-only explorer routes see: the settings snapshot and the
/// last background indexing error.
#[derive(Debug)]
pub struct ApiCtx<'a> {
    pub setting: &'a ScanSettings,
    pub last_error: &'a Option<String>,
}

pub open spec fn opt_string_view(s: Option<String>) -> Option<Seq<char>> {
    match s {
        None => None,
        Some(v) => Some(v@),
    }
}

/// The coin a ranking query names, in upper case (`HAC` when absent).
pub open spec fn coin_name(coin: Option<&str>) -> Seq<char> {
    match coin {
        None => "HAC"@,
        Some(c) => c@.map_values(|c: char| ascii_upper(c)),
    }
}

/// The first `n` entries of a ranking, or all when there are fewer.
pub open spec fn first_entries(s: Seq<(Seq<u8>, u64)>, n: nat) -> Seq<(Seq<u8>, u64)> {
    if s.len() > n {
        s.take(n as int)
    } else {
        s
    }
}

fn copy_first(list: &Vec<RankBalance>, n: usize) -> (r: Vec<RankBalance>)
    ensures
        r@.map_values(|x: RankBalance| x@) == first_entries(
            list@.map_values(|x: RankBalance| x@),
            n as nat,
        ),
{
    let mut r: Vec<RankBalance> = Vec::new();
    let mut i: usize = 0;
    let ghost s = list@.map_values(|x: RankBalance| x@);
    while i < list.len() && i < n
        invariant
            i <= list@.len(),
            i <= n,
            s == list@.map_values(|x: RankBalance| x@),
            r@.map_values(|x: RankBalance| x@) == s.take(i as int),
        decreases list@.len() - i,
    {
        let x = list[i].copy();
        let ghost before = r@.map_values(|x: RankBalance| x@);
        r.push(x);
        assert(r@.map_values(|x: RankBalance| x@) =~= before.push(x@));
        assert(s.take(i + 1) =~= s.take(i as int).push(list@[i as int]@));
        i = i + 1;
    }
    assert(r@.map_values(|x: RankBalance| x@) =~= first_entries(s, n as nat));
    r
}

impl<'a> ApiCtx<'a> {
    /// The durable checkpoint and the pending background error, if any.
    pub fn status(&self) -> (r: ScanStatus)
        ensures
            r.height == self.setting.height,
            r.healthy == (*self.last_error is None),
            opt_string_view(r.error) == opt_string_view(*self.last_error),
    {
        let error = match self.last_error {
            None => None,
            Some(e) => Some(e.clone()),
        };
        ScanStatus { height: self.setting.height, healthy: self.last_error.is_none(), error }
    }

    /// The first 100 entries of the ranking of `coin` (HAC, BTC or HACD, in
    /// any letter case; HAC when absent).
    pub fn ranking_top100(&self, coin: Option<&str>) -> (r: Result<TopRanking, String>)
        ensures
            coin_name(coin) == "HAC"@ ==> (r matches Ok(t) && t.coin == CoinKind::Hac
                && t.entries@.map_values(|x: RankBalance| x@) == first_entries(
                self.setting.rank_zhu@.1,
                100,
            )),
            coin_name(coin) == "BTC"@ ==> (r matches Ok(t) && t.coin == CoinKind::Btc
                && t.entries@.map_values(|x: RankBalance| x@) == first_entries(
                self.setting.rank_sat@.1,
                100,
            )),
            coin_name(coin) == "HACD"@ ==> (r matches Ok(t) && t.coin == CoinKind::Hacd
                && t.entries@.map_values(|x: RankBalance| x@) == first_entries(
                self.setting.rank_dia@.1,
                100,
            )),
            coin_name(coin) != "HAC"@ && coin_name(coin) != "BTC"@ && coin_name(coin) != "HACD"@ ==> (
            r matches Err(e) && e@ == "coin must be HAC, BTC, or HACD"@),
    {
        proof {
            reveal_strlit("HAC");
            reveal_strlit("BTC");
            reveal_strlit("HACD");
            assert("HAC"@[0] != "BTC"@[0]);
            assert("HAC"@.len() != "HACD"@.len());
            assert("BTC"@.len() != "HACD"@.len());
        }
        let name = match coin {
            None => "HAC".to_owned(),
            Some(c) => to_ascii_uppercase(c),
        };
        if name == "HAC".to_owned() {
            Ok(TopRanking { coin: CoinKind::Hac, entries: copy_first(&self.setting.rank_zhu.lists, 100) })
        } else if name == "BTC".to_owned() {
            Ok(TopRanking { coin: CoinKind::Btc, entries: copy_first(&self.setting.rank_sat.lists, 100) })
        } else if name == "HACD".to_owned() {
            Ok(TopRanking { coin: CoinKind::Hacd, entries: copy_first(&self.setting.rank_dia.lists, 100) })
        } else {
            Err("coin must be HAC, BTC, or HACD".to_owned())
        }
    }

    /// The activity sections, newest first.
    pub fn chain_active(&self) -> (r: Vec<ActiveItem>)
        ensures
            r@ == self.setting.chain_active.lists@,
    {
        let mut r: Vec<ActiveItem> = Vec::new();
        let mut i: usize = 0;
        while i < self.setting.chain_active.lists.len()
            invariant
                i <= self.setting.chain_active.lists@.len(),
                r@ == self.setting.chain_active.lists@.take(i as int),
            decreases self.setting.chain_active.lists@.len() - i,
        {
            r.push(self.setting.chain_active.lists[i]);
            i = i + 1;
            assert(r@ =~= self.setting.chain_active.lists@.take(i as int));
        }
        assert(r@ =~= self.setting.chain_active.lists@);
        r
    }
}


/// Addresses asked for at once, at most.
pub const MAX_QUERY_ADDRESSES: usize = 200;

/// The addresses of an address query: the comma-separated items of the
/// `address` parameter, trimmed, empty ones dropped.
pub fn address_list(raw: Option<&str>) -> (r: Vec<String>)
    ensures
        r@.map_values(|x: String| x@) == trimmed_pieces(
            split_on_comma(
                match raw {
                    Some(v) => v@,
                    None => ""@,
                },
            ),
        ),
{
    match raw {
        Some(v) => split_list(v),
        None => split_list(""),
    }
}

/// An address query names 1 through 200 addresses.
pub fn check_address_count(n: usize) -> (r: Result<(), String>)
    ensures
        1 <= n <= MAX_QUERY_ADDRESSES ==> r is Ok,
        !(1 <= n <= MAX_QUERY_ADDRESSES) ==> (r matches Err(e) && e@
            == "address count must be between 1 and 200"@),
{
    if n == 0 || n > MAX_QUERY_ADDRESSES {
        Err("address count must be between 1 and 200".to_owned())
    } else {
        Ok(())
    }
}

} // verus!
