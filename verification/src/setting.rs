//! The settings snapshot: checkpoint, account counter, chain activity
//! sections and balance rankings, with the legacy binary encoding.

use vstd::prelude::*;

use crate::text::{decimal, push_decimal};

use crate::codec::{
    be_at, be_bytes, be_value, bytes_at, concat_items, item_codec_roundtrips, lemma_be_bytes_of_value,
    lemma_be_roundtrip, lemma_be_value_bound, lemma_pow256_values, list_bytes, parse_items, parse_list,
    pow256, push_be, push_bytes,
};

verus! {

/// Bytes of an account address.
pub const ADDRESS_SIZE: usize = 21;

/// Bytes of one encoded ranking entry.
pub const RANK_BALANCE_SIZE: usize = 29;

/// Bytes of one encoded activity section.
pub const ACTIVE_ITEM_SIZE: usize = 60;

/// One ranking entry: an address and its balance.
#[derive(Clone, Debug, PartialEq, Eq)]
pub struct RankBalance {
    pub addr: Vec<u8>,
    pub amount: u64,
}

impl View for RankBalance {
    type V = (Seq<u8>, u64);

    open spec fn view(&self) -> (Seq<u8>, u64) {
        (self.addr@, self.amount)
    }
}

pub open spec fn rank_bytes(r: (Seq<u8>, u64)) -> Seq<u8> {
    r.0 + be_bytes(r.1 as nat, 8)
}

pub open spec fn rank_from_bytes(v: Seq<u8>) -> (Seq<u8>, u64) {
    (v.subrange(0, 21), be_value(v.subrange(21, 29)) as u64)
}

pub open spec fn rank_wf(r: (Seq<u8>, u64)) -> bool {
    r.0.len() == ADDRESS_SIZE
}

pub open spec fn rank_enc() -> spec_fn((Seq<u8>, u64)) -> Seq<u8> {
    |r: (Seq<u8>, u64)| rank_bytes(r)
}

pub open spec fn rank_dec() -> spec_fn(Seq<u8>) -> (Seq<u8>, u64) {
    |v: Seq<u8>| rank_from_bytes(v)
}

pub open spec fn rank_wf_fn() -> spec_fn((Seq<u8>, u64)) -> bool {
    |r: (Seq<u8>, u64)| rank_wf(r)
}

/// One activity section of 2000 blocks.
#[derive(Clone, Copy, Debug, PartialEq, Eq)]
pub struct ActiveItem {
    pub secnum: u32,
    pub newadr: u32,
    pub txs: u32,
    pub trszhu: u32,
    pub trssat: u32,
    pub trsdia: u32,
    pub mvzhu: u128,
    pub mvsat: u128,
    pub mvdia: u64,
}

pub open spec fn active_bytes(a: ActiveItem) -> Seq<u8> {
    be_bytes(a.secnum as nat, 4) + be_bytes(a.newadr as nat, 4) + be_bytes(a.txs as nat, 4)
        + be_bytes(a.trszhu as nat, 4) + be_bytes(a.trssat as nat, 4) + be_bytes(
        a.trsdia as nat,
        4,
    ) + be_bytes(a.mvzhu as nat, 16) + be_bytes(a.mvsat as nat, 12) + be_bytes(a.mvdia as nat, 8)
}

pub open spec fn active_from_bytes(v: Seq<u8>) -> ActiveItem {
    ActiveItem {
        secnum: be_value(v.subrange(0, 4)) as u32,
        newadr: be_value(v.subrange(4, 8)) as u32,
        txs: be_value(v.subrange(8, 12)) as u32,
        trszhu: be_value(v.subrange(12, 16)) as u32,
        trssat: be_value(v.subrange(16, 20)) as u32,
        trsdia: be_value(v.subrange(20, 24)) as u32,
        mvzhu: be_value(v.subrange(24, 40)) as u128,
        mvsat: be_value(v.subrange(40, 52)) as u128,
        mvdia: be_value(v.subrange(52, 60)) as u64,
    }
}

/// The moved satoshi total fits its 12-byte field.
pub open spec fn active_wf(a: ActiveItem) -> bool {
    a.mvsat < pow256(12)
}

pub open spec fn active_enc() -> spec_fn(ActiveItem) -> Seq<u8> {
    |a: ActiveItem| active_bytes(a)
}

pub open spec fn active_dec() -> spec_fn(Seq<u8>) -> ActiveItem {
    |v: Seq<u8>| active_from_bytes(v)
}

pub open spec fn active_wf_fn() -> spec_fn(ActiveItem) -> bool {
    |a: ActiveItem| active_wf(a)
}

pub proof fn lemma_rank_codec()
    ensures
        item_codec_roundtrips(29, rank_dec(), rank_enc(), rank_wf_fn()),
{
    lemma_pow256_values();
    assert forall|x: (Seq<u8>, u64)| #[trigger] rank_wf_fn()(x) implies rank_enc()(x).len() == 29
        && rank_dec()(rank_enc()(x)) == x by {
        lemma_be_roundtrip(x.1 as nat, 8);
        let e = rank_bytes(x);
        assert(e.subrange(0, 21) =~= x.0);
        assert(e.subrange(21, 29) =~= be_bytes(x.1 as nat, 8));
    }
    assert forall|v: Seq<u8>| v.len() == 29 implies #[trigger] rank_enc()(rank_dec()(v)) == v
        && rank_wf_fn()(rank_dec()(v)) by {
        let t = v.subrange(21, 29);
        lemma_be_value_bound(t);
        lemma_be_bytes_of_value(t);
        assert(rank_bytes(rank_from_bytes(v)) =~= v);
    }
}

pub proof fn lemma_active_codec()
    ensures
        item_codec_roundtrips(60, active_dec(), active_enc(), active_wf_fn()),
{
    lemma_pow256_values();
    assert forall|a: ActiveItem| #[trigger] active_wf_fn()(a) implies active_enc()(a).len() == 60
        && active_dec()(active_enc()(a)) == a by {
        lemma_be_roundtrip(a.secnum as nat, 4);
        lemma_be_roundtrip(a.newadr as nat, 4);
        lemma_be_roundtrip(a.txs as nat, 4);
        lemma_be_roundtrip(a.trszhu as nat, 4);
        lemma_be_roundtrip(a.trssat as nat, 4);
        lemma_be_roundtrip(a.trsdia as nat, 4);
        lemma_be_roundtrip(a.mvzhu as nat, 16);
        lemma_be_roundtrip(a.mvsat as nat, 12);
        lemma_be_roundtrip(a.mvdia as nat, 8);
        let e = active_bytes(a);
        assert(e.subrange(0, 4) =~= be_bytes(a.secnum as nat, 4));
        assert(e.subrange(4, 8) =~= be_bytes(a.newadr as nat, 4));
        assert(e.subrange(8, 12) =~= be_bytes(a.txs as nat, 4));
        assert(e.subrange(12, 16) =~= be_bytes(a.trszhu as nat, 4));
        assert(e.subrange(16, 20) =~= be_bytes(a.trssat as nat, 4));
        assert(e.subrange(20, 24) =~= be_bytes(a.trsdia as nat, 4));
        assert(e.subrange(24, 40) =~= be_bytes(a.mvzhu as nat, 16));
        assert(e.subrange(40, 52) =~= be_bytes(a.mvsat as nat, 12));
        assert(e.subrange(52, 60) =~= be_bytes(a.mvdia as nat, 8));
    }
    assert forall|v: Seq<u8>| v.len() == 60 implies #[trigger] active_enc()(active_dec()(v)) == v
        && active_wf_fn()(active_dec()(v)) by {
        lemma_be_value_bound(v.subrange(0, 4));
        lemma_be_value_bound(v.subrange(4, 8));
        lemma_be_value_bound(v.subrange(8, 12));
        lemma_be_value_bound(v.subrange(12, 16));
        lemma_be_value_bound(v.subrange(16, 20));
        lemma_be_value_bound(v.subrange(20, 24));
        lemma_be_value_bound(v.subrange(24, 40));
        lemma_be_value_bound(v.subrange(40, 52));
        lemma_be_value_bound(v.subrange(52, 60));
        lemma_be_bytes_of_value(v.subrange(0, 4));
        lemma_be_bytes_of_value(v.subrange(4, 8));
        lemma_be_bytes_of_value(v.subrange(8, 12));
        lemma_be_bytes_of_value(v.subrange(12, 16));
        lemma_be_bytes_of_value(v.subrange(16, 20));
        lemma_be_bytes_of_value(v.subrange(20, 24));
        lemma_be_bytes_of_value(v.subrange(24, 40));
        lemma_be_bytes_of_value(v.subrange(40, 52));
        lemma_be_bytes_of_value(v.subrange(52, 60));
        assert(active_bytes(active_from_bytes(v)) =~= v);
    }
}


/// A balance ranking, highest balance first.
#[derive(Clone, Debug, PartialEq, Eq)]
pub struct BalanceRankingList {
    pub count: u8,
    pub lists: Vec<RankBalance>,
}

impl View for BalanceRankingList {
    type V = (u8, Seq<(Seq<u8>, u64)>);

    open spec fn view(&self) -> (u8, Seq<(Seq<u8>, u64)>) {
        (self.count, self.lists@.map_values(|r: RankBalance| r@))
    }
}

impl BalanceRankingList {
    /// The entries, in ranking order.
    pub fn as_list(&self) -> (r: &[RankBalance])
        ensures
            r@ == self.lists@,
    {
        self.lists.as_slice()
    }
}

/// Chain activity sections, newest first.
#[derive(Clone, Debug, PartialEq, Eq)]
pub struct ChainActiveList {
    pub count: u8,
    pub lists: Vec<ActiveItem>,
}

impl View for ChainActiveList {
    type V = (u8, Seq<ActiveItem>);

    open spec fn view(&self) -> (u8, Seq<ActiveItem>) {
        (self.count, self.lists@)
    }
}

impl ChainActiveList {
    /// The sections, newest first.
    pub fn as_list(&self) -> (r: &[ActiveItem])
        ensures
            r@ == self.lists@,
    {
        self.lists.as_slice()
    }
}

/// The indexer's persistent state.
#[derive(Clone, Debug, PartialEq, Eq)]
pub struct ScanSettings {
    pub height: u64,
    pub auto_inc_address_id: u64,
    pub _1: Vec<u8>,
    pub _2: Vec<u8>,
    pub chain_active: ChainActiveList,
    pub rank_zhu: BalanceRankingList,
    pub rank_sat: BalanceRankingList,
    pub rank_dia: BalanceRankingList,
    pub _11: Vec<u8>,
    pub _12: Vec<u8>,
    pub _13: Vec<u8>,
    pub _14: Vec<u8>,
}

/// The mathematical content of a settings snapshot.
pub ghost struct SettingsView {
    pub height: u64,
    pub auto_inc_address_id: u64,
    pub _1: Seq<u8>,
    pub _2: Seq<u8>,
    pub chain_active: (u8, Seq<ActiveItem>),
    pub rank_zhu: (u8, Seq<(Seq<u8>, u64)>),
    pub rank_sat: (u8, Seq<(Seq<u8>, u64)>),
    pub rank_dia: (u8, Seq<(Seq<u8>, u64)>),
    pub _11: Seq<u8>,
    pub _12: Seq<u8>,
    pub _13: Seq<u8>,
    pub _14: Seq<u8>,
}

impl View for ScanSettings {
    type V = SettingsView;

    open spec fn view(&self) -> SettingsView {
        SettingsView {
            height: self.height,
            auto_inc_address_id: self.auto_inc_address_id,
            _1: self._1@,
            _2: self._2@,
            chain_active: self.chain_active@,
            rank_zhu: self.rank_zhu@,
            rank_sat: self.rank_sat@,
            rank_dia: self.rank_dia@,
            _11: self._11@,
            _12: self._12@,
            _13: self._13@,
            _14: self._14@,
        }
    }
}

/// A ranking list whose count matches its entries, all of full-size addresses.
pub open spec fn ranking_wf(l: (u8, Seq<(Seq<u8>, u64)>)) -> bool {
    &&& l.0 as nat == l.1.len()
    &&& forall|i: int| 0 <= i < l.1.len() ==> #[trigger] rank_wf_fn()(l.1[i])
}

/// An activity list whose count matches its sections.
pub open spec fn active_list_wf(l: (u8, Seq<ActiveItem>)) -> bool {
    &&& l.0 as nat == l.1.len()
    &&& forall|i: int| 0 <= i < l.1.len() ==> #[trigger] active_wf_fn()(l.1[i])
}

/// All sections have counters that fit their encodings.
pub open spec fn sections_wf(lists: Seq<ActiveItem>) -> bool {
    forall|i: int| 0 <= i < lists.len() ==> #[trigger] active_wf_fn()(lists[i])
}

/// The integers fit the widths of their encodings.
pub open spec fn settings_encodable(v: SettingsView) -> bool {
    &&& v.height < pow256(5)
    &&& v.auto_inc_address_id < pow256(5)
    &&& sections_wf(v.chain_active.1)
}

/// A snapshot that the legacy format represents exactly.
pub open spec fn settings_wf(v: SettingsView) -> bool {
    &&& settings_encodable(v)
    &&& v._1.len() == 3
    &&& v._2.len() == 8
    &&& v._11.len() == 2
    &&& v._12.len() == 2
    &&& v._13.len() == 4
    &&& v._14.len() == 8
    &&& active_list_wf(v.chain_active)
    &&& ranking_wf(v.rank_zhu)
    &&& ranking_wf(v.rank_sat)
    &&& ranking_wf(v.rank_dia)
}

pub open spec fn settings_head_bytes(v: SettingsView) -> Seq<u8> {
    be_bytes(v.height as nat, 5) + be_bytes(v.auto_inc_address_id as nat, 5) + v._1 + v._2
}

pub open spec fn settings_tail_bytes(v: SettingsView) -> Seq<u8> {
    v._11 + v._12 + v._13 + v._14
}

/// The legacy encoding: fields in declaration order, each list as a count
/// byte followed by its entries.
pub open spec fn settings_bytes(v: SettingsView) -> Seq<u8> {
    settings_head_bytes(v) + list_bytes(v.chain_active.1, active_enc()) + list_bytes(
        v.rank_zhu.1,
        rank_enc(),
    ) + list_bytes(v.rank_sat.1, rank_enc()) + list_bytes(v.rank_dia.1, rank_enc())
        + settings_tail_bytes(v)
}

/// Reading a snapshot from the front of `b`: the snapshot and the bytes used.
pub open spec fn parse_settings(b: Seq<u8>) -> Option<(SettingsView, int)> {
    if b.len() < 21 {
        None
    } else {
        match parse_list(b, 21, 60, active_dec()) {
            None => None,
            Some((ca, p1)) => match parse_list(b, p1, 29, rank_dec()) {
                None => None,
                Some((rz, p2)) => match parse_list(b, p2, 29, rank_dec()) {
                    None => None,
                    Some((rs, p3)) => match parse_list(b, p3, 29, rank_dec()) {
                        None => None,
                        Some((rd, p4)) => if p4 + 16 <= b.len() {
                            Some(
                                (
                                    SettingsView {
                                        height: be_value(b.subrange(0, 5)) as u64,
                                        auto_inc_address_id: be_value(b.subrange(5, 10)) as u64,
                                        _1: b.subrange(10, 13),
                                        _2: b.subrange(13, 21),
                                        chain_active: ca,
                                        rank_zhu: rz,
                                        rank_sat: rs,
                                        rank_dia: rd,
                                        _11: b.subrange(p4, p4 + 2),
                                        _12: b.subrange(p4 + 2, p4 + 4),
                                        _13: b.subrange(p4 + 4, p4 + 8),
                                        _14: b.subrange(p4 + 8, p4 + 16),
                                    },
                                    p4 + 16,
                                ),
                            )
                        } else {
                            None
                        },
                    },
                },
            },
        }
    }
}

proof fn lemma_piece<A>(pre: Seq<A>, mid: Seq<A>, post: Seq<A>)
    ensures
        (pre + mid + post).subrange(pre.len() as int, (pre.len() + mid.len()) as int) == mid,
        (pre + mid + post).subrange(0, pre.len() as int) == pre,
{
    assert((pre + mid + post).subrange(pre.len() as int, (pre.len() + mid.len()) as int) =~= mid);
    assert((pre + mid + post).subrange(0, pre.len() as int) =~= pre);
}

/// A list written at `pos` reads back as the same list.
proof fn lemma_parse_list_of_bytes<T>(
    b: Seq<u8>,
    pos: int,
    l: (u8, Seq<T>),
    w: nat,
    dec: spec_fn(Seq<u8>) -> T,
    enc: spec_fn(T) -> Seq<u8>,
    wf: spec_fn(T) -> bool,
)
    requires
        item_codec_roundtrips(w, dec, enc, wf),
        l.0 as nat == l.1.len(),
        forall|i: int| 0 <= i < l.1.len() ==> #[trigger] wf(l.1[i]),
        0 <= pos,
        pos + list_bytes(l.1, enc).len() <= b.len(),
        b.subrange(pos, pos + list_bytes(l.1, enc).len()) == list_bytes(l.1, enc),
    ensures
        parse_list(b, pos, w, dec) == Some((l, pos + list_bytes(l.1, enc).len())),
{
    let lb = list_bytes(l.1, enc);
    let c = concat_items(l.1, enc);
    assert(b[pos] == lb[0]);
    assert(b.subrange(pos + 1, pos + 1 + c.len()) =~= lb.subrange(1, lb.len() as int));
    assert(lb.subrange(1, lb.len() as int) =~= c);
    crate::codec::lemma_parse_items_of_concat(b, pos + 1, l.1, w, dec, enc, wf);
}

/// A list read at `pos` is written back as the bytes it was read from.
proof fn lemma_bytes_of_parse_list<T>(
    b: Seq<u8>,
    pos: int,
    w: nat,
    dec: spec_fn(Seq<u8>) -> T,
    enc: spec_fn(T) -> Seq<u8>,
    wf: spec_fn(T) -> bool,
)
    requires
        item_codec_roundtrips(w, dec, enc, wf),
        parse_list(b, pos, w, dec) is Some,
    ensures
        ({
            let (l, p) = parse_list(b, pos, w, dec)->0;
            &&& l.0 as nat == l.1.len()
            &&& forall|i: int| 0 <= i < l.1.len() ==> #[trigger] wf(l.1[i])
            &&& 0 <= pos < p <= b.len()
            &&& b.subrange(pos, p) == list_bytes(l.1, enc)
        }),
{
    crate::codec::lemma_concat_of_parse_items(b, pos + 1, b[pos] as nat, w, dec, enc, wf);
    let (l, p) = parse_list(b, pos, w, dec)->0;
    assert(b.subrange(pos, p) =~= seq![b[pos]] + b.subrange(pos + 1, p));
}


/// Law: a ranking list of at most 255 full-size entries reads back from its
/// encoding, whatever follows it, using exactly the encoding's bytes; the
/// count read is the number of entries.
pub proof fn lemma_ranking_roundtrip(l: (u8, Seq<(Seq<u8>, u64)>), rest: Seq<u8>)
    requires
        l.1.len() <= 255,
        forall|i: int| 0 <= i < l.1.len() ==> #[trigger] rank_wf_fn()(l.1[i]),
    ensures
        parse_list(list_bytes(l.1, rank_enc()) + rest, 0, 29, rank_dec()) == Some(
            ((l.1.len() as u8, l.1), list_bytes(l.1, rank_enc()).len() as int),
        ),
{
    lemma_rank_codec();
    let lb = list_bytes(l.1, rank_enc());
    let b = lb + rest;
    assert(b.subrange(0, lb.len() as int) =~= lb);
    lemma_parse_list_of_bytes(b, 0, (l.1.len() as u8, l.1), 29, rank_dec(), rank_enc(), rank_wf_fn());
}

/// Law: a well-formed snapshot reads back from its encoding, whatever follows
/// it, using exactly the encoding's bytes.
#[verifier::spinoff_prover]
#[verifier::rlimit(60)]
pub proof fn lemma_settings_roundtrip(v: SettingsView, rest: Seq<u8>)
    requires
        settings_wf(v),
    ensures
        parse_settings(settings_bytes(v) + rest) == Some((v, settings_bytes(v).len() as int)),
{
    let h = settings_head_bytes(v);
    let a = list_bytes(v.chain_active.1, active_enc());
    let z = list_bytes(v.rank_zhu.1, rank_enc());
    let s = list_bytes(v.rank_sat.1, rank_enc());
    let d = list_bytes(v.rank_dia.1, rank_enc());
    let t = settings_tail_bytes(v);
    let b = settings_bytes(v) + rest;
    assert(b =~= h + a + z + s + d + t + rest);
    assert(h.len() == 21) by {
        lemma_pow256_values();
        lemma_be_roundtrip(v.height as nat, 5);
        lemma_be_roundtrip(v.auto_inc_address_id as nat, 5);
    }
    let p1: int = 21 + a.len() as int;
    let p2: int = p1 + z.len();
    let p3: int = p2 + s.len();
    let p4: int = p3 + d.len();
    assert(parse_list(b, 21, 60, active_dec()) == Some((v.chain_active, p1))) by {
        lemma_active_codec();
        assert(b =~= h + a + (z + s + d + t + rest));
        lemma_piece(h, a, z + s + d + t + rest);
        lemma_parse_list_of_bytes(b, 21, v.chain_active, 60, active_dec(), active_enc(), active_wf_fn());
    }
    assert(parse_list(b, p1, 29, rank_dec()) == Some((v.rank_zhu, p2))) by {
        lemma_rank_codec();
        assert(b =~= (h + a) + z + (s + d + t + rest));
        lemma_piece(h + a, z, s + d + t + rest);
        lemma_parse_list_of_bytes(b, p1, v.rank_zhu, 29, rank_dec(), rank_enc(), rank_wf_fn());
    }
    assert(parse_list(b, p2, 29, rank_dec()) == Some((v.rank_sat, p3))) by {
        lemma_rank_codec();
        assert(b =~= (h + a + z) + s + (d + t + rest));
        lemma_piece(h + a + z, s, d + t + rest);
        lemma_parse_list_of_bytes(b, p2, v.rank_sat, 29, rank_dec(), rank_enc(), rank_wf_fn());
    }
    assert(parse_list(b, p3, 29, rank_dec()) == Some((v.rank_dia, p4))) by {
        lemma_rank_codec();
        assert(b =~= (h + a + z + s) + d + (t + rest));
        lemma_piece(h + a + z + s, d, t + rest);
        lemma_parse_list_of_bytes(b, p3, v.rank_dia, 29, rank_dec(), rank_enc(), rank_wf_fn());
    }
    assert(be_value(b.subrange(0, 5)) as u64 == v.height) by {
        lemma_pow256_values();
        lemma_be_roundtrip(v.height as nat, 5);
        assert(b.subrange(0, 5) =~= be_bytes(v.height as nat, 5));
    }
    assert(be_value(b.subrange(5, 10)) as u64 == v.auto_inc_address_id) by {
        lemma_pow256_values();
        lemma_be_roundtrip(v.auto_inc_address_id as nat, 5);
        assert(b.subrange(5, 10) =~= be_bytes(v.auto_inc_address_id as nat, 5));
    }
    assert(b.subrange(10, 13) =~= v._1);
    assert(b.subrange(13, 21) =~= v._2);
    assert(p4 + 16 <= b.len());
    assert(b.subrange(p4, p4 + 2) =~= v._11);
    assert(b.subrange(p4 + 2, p4 + 4) =~= v._12);
    assert(b.subrange(p4 + 4, p4 + 8) =~= v._13);
    assert(b.subrange(p4 + 8, p4 + 16) =~= v._14);
    assert(settings_bytes(v).len() == p4 + 16);
}

/// Law: whatever reads as a snapshot is a well-formed snapshot, and the bytes
/// read are exactly its encoding.
pub proof fn lemma_settings_canonical(b: Seq<u8>)
    requires
        parse_settings(b) is Some,
    ensures
        ({
            let (v, n) = parse_settings(b)->0;
            &&& settings_wf(v)
            &&& 0 <= n <= b.len()
            &&& n == settings_bytes(v).len()
            &&& b.subrange(0, n) == settings_bytes(v)
        }),
{
    lemma_active_codec();
    lemma_rank_codec();
    lemma_pow256_values();
    lemma_bytes_of_parse_list(b, 21, 60, active_dec(), active_enc(), active_wf_fn());
    let (ca, p1) = parse_list(b, 21, 60, active_dec())->0;
    lemma_bytes_of_parse_list(b, p1, 29, rank_dec(), rank_enc(), rank_wf_fn());
    let (rz, p2) = parse_list(b, p1, 29, rank_dec())->0;
    lemma_bytes_of_parse_list(b, p2, 29, rank_dec(), rank_enc(), rank_wf_fn());
    let (rs, p3) = parse_list(b, p2, 29, rank_dec())->0;
    lemma_bytes_of_parse_list(b, p3, 29, rank_dec(), rank_enc(), rank_wf_fn());
    let (rd, p4) = parse_list(b, p3, 29, rank_dec())->0;
    let (v, n) = parse_settings(b)->0;
    lemma_be_value_bound(b.subrange(0, 5));
    lemma_be_value_bound(b.subrange(5, 10));
    lemma_be_bytes_of_value(b.subrange(0, 5));
    lemma_be_bytes_of_value(b.subrange(5, 10));
    assert(settings_head_bytes(v) =~= b.subrange(0, 21));
    assert(settings_tail_bytes(v) =~= b.subrange(p4, p4 + 16));
    assert(b.subrange(0, n) =~= b.subrange(0, 21) + b.subrange(21, p1) + b.subrange(p1, p2)
        + b.subrange(p2, p3) + b.subrange(p3, p4) + b.subrange(p4, p4 + 16));
}


/// `n` zero bytes.
pub open spec fn zeros(n: nat) -> Seq<u8> {
    Seq::new(n, |i: int| 0u8)
}

/// The empty snapshot: height 0, no accounts, no sections, empty rankings.
pub open spec fn default_settings() -> SettingsView {
    SettingsView {
        height: 0,
        auto_inc_address_id: 0,
        _1: zeros(3),
        _2: zeros(8),
        chain_active: (0, Seq::empty()),
        rank_zhu: (0, Seq::empty()),
        rank_sat: (0, Seq::empty()),
        rank_dia: (0, Seq::empty()),
        _11: zeros(2),
        _12: zeros(2),
        _13: zeros(4),
        _14: zeros(8),
    }
}

fn zero_bytes(n: usize) -> (r: Vec<u8>)
    ensures
        r@ == zeros(n as nat),
{
    let mut r: Vec<u8> = Vec::new();
    let mut i: usize = 0;
    while i < n
        invariant
            i <= n,
            r@ == zeros(i as nat),
        decreases n - i,
    {
        r.push(0);
        i = i + 1;
        assert(r@ =~= zeros(i as nat));
    }
    r
}

impl Default for BalanceRankingList {
    fn default() -> (r: Self)
        ensures
            r@ == (0u8, Seq::<(Seq<u8>, u64)>::empty()),
    {
        let r = BalanceRankingList { count: 0, lists: Vec::new() };
        assert(r@.1 =~= Seq::<(Seq<u8>, u64)>::empty());
        r
    }
}

impl Default for ChainActiveList {
    fn default() -> (r: Self)
        ensures
            r@ == (0u8, Seq::<ActiveItem>::empty()),
    {
        ChainActiveList { count: 0, lists: Vec::new() }
    }
}

impl Default for ActiveItem {
    fn default() -> (r: Self)
        ensures
            r == (ActiveItem {
                secnum: 0,
                newadr: 0,
                txs: 0,
                trszhu: 0,
                trssat: 0,
                trsdia: 0,
                mvzhu: 0,
                mvsat: 0,
                mvdia: 0,
            }),
    {
        ActiveItem {
            secnum: 0,
            newadr: 0,
            txs: 0,
            trszhu: 0,
            trssat: 0,
            trsdia: 0,
            mvzhu: 0,
            mvsat: 0,
            mvdia: 0,
        }
    }
}

impl Default for RankBalance {
    fn default() -> (r: Self)
        ensures
            r@ == (zeros(21), 0u64),
    {
        RankBalance { addr: zero_bytes(ADDRESS_SIZE), amount: 0 }
    }
}

impl Default for ScanSettings {
    fn default() -> (r: Self)
        ensures
            r@ == default_settings(),
    {
        ScanSettings {
            height: 0,
            auto_inc_address_id: 0,
            _1: zero_bytes(3),
            _2: zero_bytes(8),
            chain_active: ChainActiveList::default(),
            rank_zhu: BalanceRankingList::default(),
            rank_sat: BalanceRankingList::default(),
            rank_dia: BalanceRankingList::default(),
            _11: zero_bytes(2),
            _12: zero_bytes(2),
            _13: zero_bytes(4),
            _14: zero_bytes(8),
        }
    }
}

/// Reading a snapshot failed: the buffer ends inside it.
#[derive(Clone, Copy, Debug, PartialEq, Eq)]
pub enum DecodeError {
    UnexpectedEnd,
}

fn encode_active_item(a: &ActiveItem, out: &mut Vec<u8>)
    requires
        active_wf(*a),
    ensures
        final(out)@ == old(out)@ + active_bytes(*a),
{
    proof {
        lemma_pow256_values();
    }
    push_be(out, a.secnum as u128, 4);
    push_be(out, a.newadr as u128, 4);
    push_be(out, a.txs as u128, 4);
    push_be(out, a.trszhu as u128, 4);
    push_be(out, a.trssat as u128, 4);
    push_be(out, a.trsdia as u128, 4);
    push_be(out, a.mvzhu, 16);
    push_be(out, a.mvsat, 12);
    push_be(out, a.mvdia as u128, 8);
    assert(final(out)@ =~= old(out)@ + active_bytes(*a));
}

fn encode_rank(r: &RankBalance, out: &mut Vec<u8>)
    ensures
        final(out)@ == old(out)@ + rank_bytes(r@),
{
    proof {
        lemma_pow256_values();
    }
    push_bytes(out, &r.addr);
    push_be(out, r.amount as u128, 8);
    assert(final(out)@ =~= old(out)@ + rank_bytes(r@));
}

impl ChainActiveList {
    /// Appends the list: its length as one byte, then each section.
    pub fn encode_to(&self, out: &mut Vec<u8>)
        requires
            forall|i: int| 0 <= i < self.lists@.len() ==> #[trigger] active_wf_fn()(self.lists@[i]),
        ensures
            final(out)@ == old(out)@ + list_bytes(self.lists@, active_enc()),
    {
        out.push(self.lists.len() as u8);
        let ghost start = out@;
        let mut i: usize = 0;
        assert(self.lists@.take(0) =~= Seq::<ActiveItem>::empty());
        while i < self.lists.len()
            invariant
                i <= self.lists@.len(),
                forall|j: int| 0 <= j < self.lists@.len() ==> #[trigger] active_wf_fn()(self.lists@[j]),
                start == old(out)@ + seq![self.lists@.len() as u8],
                out@ == start + concat_items(self.lists@.take(i as int), active_enc()),
            decreases self.lists@.len() - i,
        {
            let item = self.lists[i];
            assert(active_wf_fn()(self.lists@[i as int]));
            encode_active_item(&item, out);
            proof {
                assert(self.lists@.take(i + 1) =~= self.lists@.take(i as int).push(item));
                crate::codec::lemma_concat_items_push(self.lists@.take(i as int), item, active_enc());
            }
            i = i + 1;
        }
        assert(self.lists@.take(self.lists@.len() as int) =~= self.lists@);
        assert(final(out)@ =~= old(out)@ + list_bytes(self.lists@, active_enc()));
    }
}

impl BalanceRankingList {
    /// Reads a ranking list from the front of `buf`: the list and the number
    /// of bytes it used. Bytes after it are not looked at.
    pub fn decode(buf: &[u8]) -> (r: Result<(BalanceRankingList, usize), DecodeError>)
        ensures
            match parse_list(buf@, 0, 29, rank_dec()) {
                None => r is Err,
                Some((l, n)) => r matches Ok((x, m)) && x@ == l && m == n,
            },
    {
        match decode_ranking(buf, 0) {
            Some((x, m)) => Ok((x, m)),
            None => Err(DecodeError::UnexpectedEnd),
        }
    }

    /// Appends the list: its length as one byte, then each entry.
    pub fn encode_to(&self, out: &mut Vec<u8>)
        ensures
            final(out)@ == old(out)@ + list_bytes(self@.1, rank_enc()),
    {
        out.push(self.lists.len() as u8);
        let ghost start = out@;
        let ghost items = self@.1;
        let mut i: usize = 0;
        assert(items.take(0) =~= Seq::<(Seq<u8>, u64)>::empty());
        while i < self.lists.len()
            invariant
                i <= self.lists@.len(),
                items == self.lists@.map_values(|r: RankBalance| r@),
                start == old(out)@ + seq![self.lists@.len() as u8],
                out@ == start + concat_items(items.take(i as int), rank_enc()),
            decreases self.lists@.len() - i,
        {
            encode_rank(&self.lists[i], out);
            proof {
                assert(items.take(i + 1) =~= items.take(i as int).push(self.lists@[i as int]@));
                crate::codec::lemma_concat_items_push(items.take(i as int), self.lists@[i as int]@, rank_enc());
            }
            i = i + 1;
        }
        assert(items.take(items.len() as int) =~= items);
        assert(final(out)@ =~= old(out)@ + list_bytes(self@.1, rank_enc()));
    }
}

impl ScanSettings {
    /// Appends the legacy encoding of the snapshot.
    pub fn encode_to(&self, out: &mut Vec<u8>)
        requires
            settings_encodable(self@),
        ensures
            final(out)@ == old(out)@ + settings_bytes(self@),
    {
        proof {
            lemma_pow256_values();
        }
        push_be(out, self.height as u128, 5);
        push_be(out, self.auto_inc_address_id as u128, 5);
        push_bytes(out, &self._1);
        push_bytes(out, &self._2);
        assert forall|i: int| 0 <= i < self.chain_active.lists@.len() implies #[trigger] active_wf_fn()(
            self.chain_active.lists@[i],
        ) by {
            assert(active_wf_fn()(self@.chain_active.1[i]));
        }
        self.chain_active.encode_to(out);
        self.rank_zhu.encode_to(out);
        self.rank_sat.encode_to(out);
        self.rank_dia.encode_to(out);
        push_bytes(out, &self._11);
        push_bytes(out, &self._12);
        push_bytes(out, &self._13);
        push_bytes(out, &self._14);
        assert(final(out)@ =~= old(out)@ + settings_bytes(self@));
    }

    /// Whether the snapshot's integers fit the widths of their encodings.
    pub fn is_encodable(&self) -> (r: bool)
        ensures
            r == settings_encodable(self@),
    {
        proof {
            lemma_pow256_values();
        }
        if self.height > 0xff_ffff_ffff || self.auto_inc_address_id > 0xff_ffff_ffff {
            return false;
        }
        let lists = &self.chain_active.lists;
        let mut i: usize = 0;
        while i < lists.len()
            invariant
                i <= lists@.len(),
                lists@ == self@.chain_active.1,
                forall|j: int| 0 <= j < i ==> #[trigger] active_wf_fn()(lists@[j]),
            decreases lists@.len() - i,
        {
            proof {
                lemma_pow256_values();
            }
            if lists[i].mvsat > 0xffff_ffff_ffff_ffff_ffff_ffff {
                assert(!active_wf_fn()(lists@[i as int]));
                return false;
            }
            i = i + 1;
        }
        true
    }

    /// The legacy encoding of the snapshot.
    pub fn encode(&self) -> (r: Vec<u8>)
        requires
            settings_encodable(self@),
        ensures
            r@ == settings_bytes(self@),
    {
        let mut out: Vec<u8> = Vec::new();
        self.encode_to(&mut out);
        assert(out@ =~= settings_bytes(self@));
        out
    }
}

fn decode_active_item(buf: &[u8], pos: usize) -> (r: ActiveItem)
    requires
        pos + 60 <= buf@.len(),
    ensures
        r == active_from_bytes(buf@.subrange(pos as int, pos + 60)),
{
    proof {
        lemma_pow256_values();
    }
    let _len = buf.len();
    let secnum = be_at(buf, pos, 4) as u32;
    let newadr = be_at(buf, pos + 4, 4) as u32;
    let txs = be_at(buf, pos + 8, 4) as u32;
    let trszhu = be_at(buf, pos + 12, 4) as u32;
    let trssat = be_at(buf, pos + 16, 4) as u32;
    let trsdia = be_at(buf, pos + 20, 4) as u32;
    let mvzhu = be_at(buf, pos + 24, 16);
    let mvsat = be_at(buf, pos + 40, 12);
    let mvdia = be_at(buf, pos + 52, 8) as u64;
    let ghost v = buf@.subrange(pos as int, pos + 60);
    assert(v.subrange(0, 4) =~= buf@.subrange(pos as int, pos + 4));
    assert(v.subrange(4, 8) =~= buf@.subrange(pos + 4, pos + 8));
    assert(v.subrange(8, 12) =~= buf@.subrange(pos + 8, pos + 12));
    assert(v.subrange(12, 16) =~= buf@.subrange(pos + 12, pos + 16));
    assert(v.subrange(16, 20) =~= buf@.subrange(pos + 16, pos + 20));
    assert(v.subrange(20, 24) =~= buf@.subrange(pos + 20, pos + 24));
    assert(v.subrange(24, 40) =~= buf@.subrange(pos + 24, pos + 40));
    assert(v.subrange(40, 52) =~= buf@.subrange(pos + 40, pos + 52));
    assert(v.subrange(52, 60) =~= buf@.subrange(pos + 52, pos + 60));
    ActiveItem { secnum, newadr, txs, trszhu, trssat, trsdia, mvzhu, mvsat, mvdia }
}

fn decode_rank(buf: &[u8], pos: usize) -> (r: RankBalance)
    requires
        pos + 29 <= buf@.len(),
    ensures
        r@ == rank_from_bytes(buf@.subrange(pos as int, pos + 29)),
{
    proof {
        lemma_pow256_values();
    }
    let _len = buf.len();
    let addr = bytes_at(buf, pos, 21);
    let amount = be_at(buf, pos + 21, 8) as u64;
    let ghost v = buf@.subrange(pos as int, pos + 29);
    assert(v.subrange(0, 21) =~= buf@.subrange(pos as int, pos + 21));
    assert(v.subrange(21, 29) =~= buf@.subrange(pos + 21, pos + 29));
    RankBalance { addr, amount }
}

fn decode_active_list(buf: &[u8], pos: usize) -> (r: Option<(ChainActiveList, usize)>)
    ensures
        match parse_list(buf@, pos as int, 60, active_dec()) {
            None => r is None,
            Some((l, p)) => r matches Some((x, q)) && x@ == l && q == p,
        },
{
    if pos >= buf.len() {
        return None;
    }
    let k = buf[pos];
    let mut lists: Vec<ActiveItem> = Vec::new();
    let mut p: usize = pos + 1;
    let mut i: usize = 0;
    while i < k as usize
        invariant
            pos < buf@.len(),
            buf@.len() == buf.len(),
            k == buf@[pos as int],
            i <= k,
            p <= buf@.len(),
            parse_items(buf@, pos + 1, i as nat, 60, active_dec()) == Some((lists@, p as int)),
        decreases k - i,
    {
        if p > buf.len() || buf.len() - p < 60 {
            proof {
                crate::codec::lemma_parse_items_none_grows(buf@, pos + 1, (i + 1) as nat, k as nat, 60, active_dec());
            }
            return None;
        }
        let item = decode_active_item(buf, p);
        lists.push(item);
        p = p + 60;
        i = i + 1;
    }
    Some((ChainActiveList { count: k, lists }, p))
}

fn decode_ranking(buf: &[u8], pos: usize) -> (r: Option<(BalanceRankingList, usize)>)
    ensures
        match parse_list(buf@, pos as int, 29, rank_dec()) {
            None => r is None,
            Some((l, p)) => r matches Some((x, q)) && x@ == l && q == p,
        },
{
    if pos >= buf.len() {
        return None;
    }
    let k = buf[pos];
    let mut lists: Vec<RankBalance> = Vec::new();
    let mut p: usize = pos + 1;
    let mut i: usize = 0;
    while i < k as usize
        invariant
            pos < buf@.len(),
            buf@.len() == buf.len(),
            k == buf@[pos as int],
            i <= k,
            p <= buf@.len(),
            parse_items(buf@, pos + 1, i as nat, 29, rank_dec()) == Some(
                (lists@.map_values(|r: RankBalance| r@), p as int),
            ),
        decreases k - i,
    {
        if p > buf.len() || buf.len() - p < 29 {
            proof {
                crate::codec::lemma_parse_items_none_grows(buf@, pos + 1, (i + 1) as nat, k as nat, 29, rank_dec());
            }
            return None;
        }
        let item = decode_rank(buf, p);
        let ghost old_lists = lists@;
        lists.push(item);
        assert(lists@.map_values(|r: RankBalance| r@) =~= old_lists.map_values(|r: RankBalance| r@).push(item@));
        p = p + 29;
        i = i + 1;
    }
    Some((BalanceRankingList { count: k, lists }, p))
}

impl ScanSettings {
    /// Reads a snapshot from the front of `buf`: the snapshot and the number
    /// of bytes it used. Bytes after it are not looked at.
    pub fn decode(buf: &[u8]) -> (r: Result<(ScanSettings, usize), DecodeError>)
        ensures
            match parse_settings(buf@) {
                None => r is Err,
                Some((v, n)) => r matches Ok((s, m)) && s@ == v && m == n,
            },
    {
        if buf.len() < 21 {
            return Err(DecodeError::UnexpectedEnd);
        }
        let height = be_at(buf, 0, 5) as u64;
        let auto_inc_address_id = be_at(buf, 5, 5) as u64;
        let _1 = bytes_at(buf, 10, 3);
        let _2 = bytes_at(buf, 13, 8);
        proof {
            lemma_pow256_values();
        }
        let (chain_active, p1) = match decode_active_list(buf, 21) {
            Some(x) => x,
            None => return Err(DecodeError::UnexpectedEnd),
        };
        let (rank_zhu, p2) = match decode_ranking(buf, p1) {
            Some(x) => x,
            None => return Err(DecodeError::UnexpectedEnd),
        };
        let (rank_sat, p3) = match decode_ranking(buf, p2) {
            Some(x) => x,
            None => return Err(DecodeError::UnexpectedEnd),
        };
        let (rank_dia, p4) = match decode_ranking(buf, p3) {
            Some(x) => x,
            None => return Err(DecodeError::UnexpectedEnd),
        };
        if p4 > buf.len() || buf.len() - p4 < 16 {
            return Err(DecodeError::UnexpectedEnd);
        }
        let _11 = bytes_at(buf, p4, 2);
        let _12 = bytes_at(buf, p4 + 2, 2);
        let _13 = bytes_at(buf, p4 + 4, 4);
        let _14 = bytes_at(buf, p4 + 8, 8);
        let s = ScanSettings {
            height,
            auto_inc_address_id,
            _1,
            _2,
            chain_active,
            rank_zhu,
            rank_sat,
            rank_dia,
            _11,
            _12,
            _13,
            _14,
        };
        Ok((s, p4 + 16))
    }
}


/// Why a stored snapshot was refused.
#[derive(Debug)]
pub enum SettingsError {
    /// The bytes end inside the snapshot.
    Decode { source: String },
    /// Bytes follow the snapshot.
    TrailingBytes { source: String, trailing: usize },
}

pub open spec fn settings_error_message(e: SettingsError) -> Seq<char> {
    match e {
        SettingsError::Decode { source } => "decode hascan "@ + source@ + " failed: unexpected end of data"@,
        SettingsError::TrailingBytes { source, trailing } => "decode hascan "@ + source@ + " failed: "@
            + decimal(trailing as nat) + " trailing bytes"@,
    }
}

impl SettingsError {
    /// The error message.
    pub fn message(&self) -> (r: String)
        ensures
            r@ == settings_error_message(*self),
    {
        match self {
            SettingsError::Decode { source } => {
                let mut m = "decode hascan ".to_owned();
                m.append(source.as_str());
                m.append(" failed: unexpected end of data");
                m
            },
            SettingsError::TrailingBytes { source, trailing } => {
                let mut m = "decode hascan ".to_owned();
                m.append(source.as_str());
                m.append(" failed: ");
                push_decimal(&mut m, *trailing as u64);
                m.append(" trailing bytes");
                m
            },
        }
    }
}

/// Reads a stored snapshot, which must fill `data` exactly; `source` names
/// where it came from in the error.
pub fn decode_settings(data: &[u8], source: &str) -> (r: Result<ScanSettings, SettingsError>)
    ensures
        match parse_settings(data@) {
            None => r matches Err(SettingsError::Decode { source: s }) && s@ == source@,
            Some((v, n)) => if n == data@.len() {
                r matches Ok(st) && st@ == v
            } else {
                r matches Err(SettingsError::TrailingBytes { source: s, trailing: t }) && s@ == source@
                    && t == data@.len() - n
            },
        },
{
    match ScanSettings::decode(data) {
        Err(_) => Err(SettingsError::Decode { source: source.to_owned() }),
        Ok((settings, used)) => {
            if used != data.len() {
                proof {
                    lemma_settings_canonical(data@);
                }
                Err(SettingsError::TrailingBytes { source: source.to_owned(), trailing: data.len() - used })
            } else {
                Ok(settings)
            }
        },
    }
}

/// Law: the stored-snapshot reader accepts exactly the encodings of
/// well-formed snapshots, and gives back the snapshot encoded.
pub proof fn lemma_decode_settings_accepts_exactly(b: Seq<u8>, v: SettingsView)
    ensures
        parse_settings(b) == Some((v, b.len() as int)) <==> (settings_wf(v) && settings_bytes(v) == b),
{
    if parse_settings(b) == Some((v, b.len() as int)) {
        lemma_settings_canonical(b);
        assert(b.subrange(0, b.len() as int) =~= b);
    }
    if settings_wf(v) && settings_bytes(v) == b {
        lemma_settings_roundtrip(v, Seq::empty());
        assert(settings_bytes(v) + Seq::<u8>::empty() =~= b);
    }
}

/// Law: the layout of an activity section, 60 bytes, each field big-endian
/// at a fixed offset: `secnum` 0..4, `newadr` 4..8, `txs` 8..12, `trszhu`
/// 12..16, `trssat` 16..20, `trsdia` 20..24, `mvzhu` 24..40, `mvsat` 40..52,
/// `mvdia` 52..60; reading 60 bytes takes each field from the same place.
pub proof fn lemma_active_item_layout(a: ActiveItem, v: Seq<u8>)
    requires
        active_wf(a),
    ensures
        active_bytes(a).len() == 60,
        be_value(active_bytes(a).subrange(0, 4)) == a.secnum,
        be_value(active_bytes(a).subrange(4, 8)) == a.newadr,
        be_value(active_bytes(a).subrange(8, 12)) == a.txs,
        be_value(active_bytes(a).subrange(12, 16)) == a.trszhu,
        be_value(active_bytes(a).subrange(16, 20)) == a.trssat,
        be_value(active_bytes(a).subrange(20, 24)) == a.trsdia,
        be_value(active_bytes(a).subrange(24, 40)) == a.mvzhu,
        be_value(active_bytes(a).subrange(40, 52)) == a.mvsat,
        be_value(active_bytes(a).subrange(52, 60)) == a.mvdia,
        v.len() == 60 ==> {
            let d = active_from_bytes(v);
            &&& d.secnum == be_value(v.subrange(0, 4))
            &&& d.newadr == be_value(v.subrange(4, 8))
            &&& d.txs == be_value(v.subrange(8, 12))
            &&& d.trszhu == be_value(v.subrange(12, 16))
            &&& d.trssat == be_value(v.subrange(16, 20))
            &&& d.trsdia == be_value(v.subrange(20, 24))
            &&& d.mvzhu == be_value(v.subrange(24, 40))
            &&& d.mvsat == be_value(v.subrange(40, 52))
            &&& d.mvdia == be_value(v.subrange(52, 60))
        },
{
    lemma_pow256_values();
    lemma_be_roundtrip(a.secnum as nat, 4);
    lemma_be_roundtrip(a.newadr as nat, 4);
    lemma_be_roundtrip(a.txs as nat, 4);
    lemma_be_roundtrip(a.trszhu as nat, 4);
    lemma_be_roundtrip(a.trssat as nat, 4);
    lemma_be_roundtrip(a.trsdia as nat, 4);
    lemma_be_roundtrip(a.mvzhu as nat, 16);
    lemma_be_roundtrip(a.mvsat as nat, 12);
    lemma_be_roundtrip(a.mvdia as nat, 8);
    let e = active_bytes(a);
    assert(e.subrange(0, 4) =~= be_bytes(a.secnum as nat, 4));
    assert(e.subrange(4, 8) =~= be_bytes(a.newadr as nat, 4));
    assert(e.subrange(8, 12) =~= be_bytes(a.txs as nat, 4));
    assert(e.subrange(12, 16) =~= be_bytes(a.trszhu as nat, 4));
    assert(e.subrange(16, 20) =~= be_bytes(a.trssat as nat, 4));
    assert(e.subrange(20, 24) =~= be_bytes(a.trsdia as nat, 4));
    assert(e.subrange(24, 40) =~= be_bytes(a.mvzhu as nat, 16));
    assert(e.subrange(40, 52) =~= be_bytes(a.mvsat as nat, 12));
    assert(e.subrange(52, 60) =~= be_bytes(a.mvdia as nat, 8));
    if v.len() == 60 {
        lemma_be_value_bound(v.subrange(0, 4));
        lemma_be_value_bound(v.subrange(4, 8));
        lemma_be_value_bound(v.subrange(8, 12));
        lemma_be_value_bound(v.subrange(12, 16));
        lemma_be_value_bound(v.subrange(16, 20));
        lemma_be_value_bound(v.subrange(20, 24));
        lemma_be_value_bound(v.subrange(24, 40));
        lemma_be_value_bound(v.subrange(40, 52));
        lemma_be_value_bound(v.subrange(52, 60));
    }
}

} // verus!
