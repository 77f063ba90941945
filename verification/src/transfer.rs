//! Transfer statistics: checked counter updates and the activity counters
//! that each indexed transfer bumps.

use vstd::prelude::*;

use crate::active::{lemma_rotate_keeps_wf, record_current_active, rotate_sections, same_but_active};
use crate::setting::{active_wf, active_wf_fn, settings_encodable, ActiveItem, ScanSettings};

verus! {

/// The message of a counter overflow.
pub open spec fn overflow_message(name: Seq<char>) -> Seq<char> {
    "hascan "@ + name + " overflow"@
}

/// `"hascan {name} overflow"`.
pub fn overflow_error(name: &str) -> (r: String)
    ensures
        r@ == overflow_message(name@),
{
    let mut s = "hascan ".to_owned();
    s.append(name);
    s.append(" overflow");
    s
}

/// Adds to a 4-byte counter, failing on overflow.
pub fn add_uint4(value: &mut u32, add: u32, name: &str) -> (r: Result<(), String>)
    ensures
        old(value) + add <= u32::MAX ==> r is Ok && *final(value) == old(value) + add,
        old(value) + add > u32::MAX ==> (r matches Err(e) && e@ == overflow_message(name@))
            && *final(value) == *old(value),
{
    match value.checked_add(add) {
        Some(next) => {
            *value = next;
            Ok(())
        },
        None => Err(overflow_error(name)),
    }
}


/// Adds to an 8-byte counter, failing on overflow.
pub fn add_uint8(value: &mut u64, add: u64, name: &str) -> (r: Result<(), String>)
    ensures
        old(value) + add <= u64::MAX ==> r is Ok && *final(value) == old(value) + add,
        old(value) + add > u64::MAX ==> (r matches Err(e) && e@ == overflow_message(name@))
            && *final(value) == *old(value),
{
    match value.checked_add(add) {
        Some(next) => {
            *value = next;
            Ok(())
        },
        None => Err(overflow_error(name)),
    }
}

/// The largest value of a 12-byte counter.
pub const UINT12_MAX: u128 = 0xffff_ffff_ffff_ffff_ffff_ffff;

/// Adds to a 12-byte counter, failing when the sum does not fit 12 bytes.
pub fn add_uint12(value: &mut u128, add: u64, name: &str) -> (r: Result<(), String>)
    ensures
        old(value) + add <= UINT12_MAX ==> r is Ok && *final(value) == old(value) + add,
        old(value) + add > UINT12_MAX ==> (r matches Err(e) && e@ == overflow_message(name@))
            && *final(value) == *old(value),
{
    match value.checked_add(add as u128) {
        Some(next) => {
            if next <= UINT12_MAX {
                *value = next;
                Ok(())
            } else {
                Err(overflow_error(name))
            }
        },
        None => Err(overflow_error(name)),
    }
}

/// Adds to a 16-byte counter, failing on overflow.
pub fn add_uint16(value: &mut u128, add: u64, name: &str) -> (r: Result<(), String>)
    ensures
        old(value) + add <= u128::MAX ==> r is Ok && *final(value) == old(value) + add,
        old(value) + add > u128::MAX ==> (r matches Err(e) && e@ == overflow_message(name@))
            && *final(value) == *old(value),
{
    match value.checked_add(add as u128) {
        Some(next) => {
            *value = next;
            Ok(())
        },
        None => Err(overflow_error(name)),
    }
}


/// Coin type of a HAC transfer row.
pub const COINTY_ZHU: u8 = 1;

/// Coin type of a satoshi transfer row.
pub const COINTY_SAT: u8 = 2;

/// Coin type of a diamond transfer row.
pub const COINTY_DIA: u8 = 3;

/// Operation kind of a channel opening row.
pub const OPTY_CH_OPEN: u8 = 1;

/// Operation kind of a channel closing row.
pub const OPTY_CH_CLOSE: u8 = 2;

pub open spec fn is_coin_type(coin_type: u8) -> bool {
    coin_type == COINTY_ZHU || coin_type == COINTY_SAT || coin_type == COINTY_DIA
}

/// The names of a coin's transfer counter and amount counter.
pub open spec fn coin_counter_names(coin_type: u8) -> (Seq<char>, Seq<char>) {
    if coin_type == COINTY_ZHU {
        ("HAC transfer count"@, "HAC transfer amount"@)
    } else if coin_type == COINTY_SAT {
        ("SAT transfer count"@, "SAT transfer amount"@)
    } else {
        ("diamond transfer count"@, "diamond transfer amount"@)
    }
}

/// The section with one more transfer of the coin, if the count fits.
pub open spec fn bump_transfer_count(a: ActiveItem, coin_type: u8) -> Option<ActiveItem> {
    if coin_type == COINTY_ZHU {
        if a.trszhu + 1 <= u32::MAX {
            Some(ActiveItem { trszhu: (a.trszhu + 1) as u32, ..a })
        } else {
            None
        }
    } else if coin_type == COINTY_SAT {
        if a.trssat + 1 <= u32::MAX {
            Some(ActiveItem { trssat: (a.trssat + 1) as u32, ..a })
        } else {
            None
        }
    } else {
        if a.trsdia + 1 <= u32::MAX {
            Some(ActiveItem { trsdia: (a.trsdia + 1) as u32, ..a })
        } else {
            None
        }
    }
}

/// The section with `amount` more of the coin moved, if the total fits.
pub open spec fn bump_transfer_amount(a: ActiveItem, coin_type: u8, amount: u64) -> Option<ActiveItem> {
    if coin_type == COINTY_ZHU {
        if a.mvzhu + amount <= u128::MAX {
            Some(ActiveItem { mvzhu: (a.mvzhu + amount) as u128, ..a })
        } else {
            None
        }
    } else if coin_type == COINTY_SAT {
        if a.mvsat + amount <= UINT12_MAX {
            Some(ActiveItem { mvsat: (a.mvsat + amount) as u128, ..a })
        } else {
            None
        }
    } else {
        if a.mvdia + amount <= u64::MAX {
            Some(ActiveItem { mvdia: (a.mvdia + amount) as u64, ..a })
        } else {
            None
        }
    }
}

/// The current section after one transfer: the section, and the name of the
/// counter that overflowed, if one did.
pub open spec fn transfer_activity(a: ActiveItem, coin_type: u8, amount: u64) -> (
    ActiveItem,
    Option<Seq<char>>,
) {
    match bump_transfer_count(a, coin_type) {
        None => (a, Some(coin_counter_names(coin_type).0)),
        Some(a1) => match bump_transfer_amount(a1, coin_type, amount) {
            None => (a1, Some(coin_counter_names(coin_type).1)),
            Some(a2) => (a2, None),
        },
    }
}

proof fn lemma_transfer_activity_wf(a: ActiveItem, coin_type: u8, amount: u64)
    requires
        active_wf(a),
    ensures
        active_wf(transfer_activity(a, coin_type, amount).0),
{
    crate::codec::lemma_pow256_values();
}

/// Counts one transfer of `amount` of the coin in the section of `height`.
pub fn record_transfer_activity(setting: &mut ScanSettings, height: u64, coin_type: u8, amount: u64) -> (r:
    Result<(), String>)
    requires
        is_coin_type(coin_type),
    ensures
        settings_encodable(old(setting)@) ==> settings_encodable(final(setting)@),
        ({
            let rot = rotate_sections(old(setting).chain_active.lists@, height);
            let (a, failed) = transfer_activity(rot[0], coin_type, amount);
            &&& same_but_active(old(setting)@, final(setting)@)
            &&& final(setting).chain_active.count == rot.len() as u8
            &&& final(setting).chain_active.lists@ == rot.update(0, a)
            &&& match failed {
                None => r is Ok,
                Some(name) => r matches Err(e) && e@ == overflow_message(name),
            }
        }),
{
    proof {
        if settings_encodable(setting@) {
            lemma_rotate_keeps_wf(setting@.chain_active.1, height);
            let rot = rotate_sections(setting.chain_active.lists@, height);
            assert(active_wf_fn()(rot[0]));
            lemma_transfer_activity_wf(rot[0], coin_type, amount);
        }
    }
    let active = record_current_active(setting, height);
    if coin_type == COINTY_ZHU {
        add_uint4(&mut active.trszhu, 1, "HAC transfer count")?;
        add_uint16(&mut active.mvzhu, amount, "HAC transfer amount")?;
    } else if coin_type == COINTY_SAT {
        add_uint4(&mut active.trssat, 1, "SAT transfer count")?;
        add_uint12(&mut active.mvsat, amount, "SAT transfer amount")?;
    } else {
        add_uint4(&mut active.trsdia, 1, "diamond transfer count")?;
        add_uint8(&mut active.mvdia, amount, "diamond transfer amount")?;
    }
    Ok(())
}


/// HAC amounts above this many zhu are not indexed.
pub const MAX_INDEXED_ZHU: u128 = 100_000_000_000_000;

/// HAC amounts below this many zhu are not indexed.
pub const MIN_INDEXED_ZHU: u128 = 10000;

/// A top-level action of a transaction, as far as the index reads it.
/// Addresses are readable address strings, or the error met resolving them;
/// a HAC amount is its value in zhu, or the error met converting it.
#[derive(Debug)]
pub enum ActionInfo {
    HacTo { to: Result<String, String>, zhu: Result<u128, String> },
    HacFrom { from: Result<String, String>, zhu: Result<u128, String> },
    HacFromTo { from: Result<String, String>, to: Result<String, String>, zhu: Result<u128, String> },
    SatTo { to: Result<String, String>, satoshi: u64 },
    SatFrom { from: Result<String, String>, satoshi: u64 },
    SatFromTo { from: Result<String, String>, to: Result<String, String>, satoshi: u64 },
    DiaSingle { to: Result<String, String> },
    DiaFrom { from: Result<String, String>, diamonds: u64 },
    DiaTo { to: Result<String, String>, diamonds: u64 },
    DiaFromTo { from: Result<String, String>, to: Result<String, String>, diamonds: u64 },
    DiamondMint { miner: String },
    ChannelOpen {
        left: String,
        right: String,
        channel_id: Vec<u8>,
        left_amount: String,
        right_amount: String,
    },
    ChannelClose { channel_id: Vec<u8> },
    Other,
}

/// One side of a transfer row.
#[derive(Debug)]
pub enum Party {
    /// The transaction's main address.
    Main,
    /// Another address, by its readable form.
    Address(String),
}

/// What indexing one action records.
#[derive(Debug)]
pub enum ActionPlan {
    /// Nothing.
    Ignore,
    /// A `coin_transfer` row from `from` to `to`, counted in the activity
    /// section; the parties get their account ids in this order.
    Transfer { from: Party, to: Party, coin_type: u8, amount: u64 },
    /// One more minted diamond for the miner's account.
    MintDiamond { miner: String },
    /// A `defi_operate` channel opening row between the two accounts.
    ChannelOpen { left: String, right: String, channel_id: Vec<u8>, notes: String },
    /// A `defi_operate` channel closing row by the main account.
    ChannelClose { channel_id: Vec<u8> },
}

pub open spec fn address_failed_message(e: Seq<char>) -> Seq<char> {
    "hascan action address failed: "@ + e
}

pub open spec fn amount_failed_message(e: Seq<char>) -> Seq<char> {
    "hascan HAC amount conversion failed: "@ + e
}

pub open spec fn party_is(p: Party, a: Seq<char>) -> bool {
    p matches Party::Address(s) && s@ == a
}

fn address_failed(e: &String) -> (r: String)
    ensures
        r@ == address_failed_message(e@),
{
    let mut s = "hascan action address failed: ".to_owned();
    s.append(e.as_str());
    s
}

fn amount_failed(e: &String) -> (r: String)
    ensures
        r@ == amount_failed_message(e@),
{
    let mut s = "hascan HAC amount conversion failed: ".to_owned();
    s.append(e.as_str());
    s
}

fn resolved(a: &Result<String, String>) -> (r: Result<Party, String>)
    ensures
        match a {
            Ok(s) => r matches Ok(p) && party_is(p, s@),
            Err(e) => r matches Err(m) && m@ == address_failed_message(e@),
        },
{
    match a {
        Ok(s) => Ok(Party::Address(s.clone())),
        Err(e) => Err(address_failed(e)),
    }
}

/// A HAC amount in zhu when the index records it: conversion errors fail,
/// amounts outside `MIN_INDEXED_ZHU..=MAX_INDEXED_ZHU` are skipped.
fn indexed_zhu(zhu: &Result<u128, String>) -> (r: Result<Option<u64>, String>)
    ensures
        match zhu {
            Err(e) => r matches Err(m) && m@ == amount_failed_message(e@),
            Ok(z) => if *z > MAX_INDEXED_ZHU || *z < MIN_INDEXED_ZHU {
                r == Ok::<Option<u64>, String>(None)
            } else {
                r == Ok::<Option<u64>, String>(Some(*z as u64))
            },
        },
{
    match zhu {
        Err(e) => Err(amount_failed(e)),
        Ok(z) => {
            if *z > MAX_INDEXED_ZHU || *z < MIN_INDEXED_ZHU {
                Ok(None)
            } else {
                Ok(Some(*z as u64))
            }
        },
    }
}


/// The content of a plan or of its failure.
pub ghost enum PlanView {
    Fail(Seq<char>),
    Ignore,
    /// Parties (`None` for the main address), coin type and amount.
    Transfer(Option<Seq<char>>, Option<Seq<char>>, u8, u64),
    MintDiamond(Seq<char>),
    ChannelOpen(Seq<char>, Seq<char>, Seq<u8>, Seq<char>),
    ChannelClose(Seq<u8>),
}

pub open spec fn party_view(p: Party) -> Option<Seq<char>> {
    match p {
        Party::Main => None,
        Party::Address(s) => Some(s@),
    }
}

pub open spec fn plan_view(r: Result<ActionPlan, String>) -> PlanView {
    match r {
        Err(e) => PlanView::Fail(e@),
        Ok(ActionPlan::Ignore) => PlanView::Ignore,
        Ok(ActionPlan::Transfer { from, to, coin_type, amount }) => PlanView::Transfer(
            party_view(from),
            party_view(to),
            coin_type,
            amount,
        ),
        Ok(ActionPlan::MintDiamond { miner }) => PlanView::MintDiamond(miner@),
        Ok(ActionPlan::ChannelOpen { left, right, channel_id, notes }) => PlanView::ChannelOpen(
            left@,
            right@,
            channel_id@,
            notes@,
        ),
        Ok(ActionPlan::ChannelClose { channel_id }) => PlanView::ChannelClose(channel_id@),
    }
}

/// A transfer between resolved parties, or the failure resolving the first
/// party that does not resolve (`from` before `to`).
pub open spec fn transfer_view(
    from: Option<Result<String, String>>,
    to: Option<Result<String, String>>,
    coin_type: u8,
    amount: u64,
) -> PlanView {
    match from {
        Some(Err(e)) => PlanView::Fail(address_failed_message(e@)),
        _ => match to {
            Some(Err(e)) => PlanView::Fail(address_failed_message(e@)),
            _ => PlanView::Transfer(
                match from {
                    Some(Ok(f)) => Some(f@),
                    _ => None,
                },
                match to {
                    Some(Ok(t)) => Some(t@),
                    _ => None,
                },
                coin_type,
                amount,
            ),
        },
    }
}

/// A HAC transfer: the amount is checked before the parties.
pub open spec fn hac_transfer_view(
    from: Option<Result<String, String>>,
    to: Option<Result<String, String>>,
    zhu: Result<u128, String>,
) -> PlanView {
    match zhu {
        Err(e) => PlanView::Fail(amount_failed_message(e@)),
        Ok(z) => if z > MAX_INDEXED_ZHU || z < MIN_INDEXED_ZHU {
            PlanView::Ignore
        } else {
            transfer_view(from, to, COINTY_ZHU, z as u64)
        },
    }
}

/// What the index records for an action.
pub open spec fn expected_plan(a: ActionInfo) -> PlanView {
    match a {
        ActionInfo::HacTo { to, zhu } => hac_transfer_view(None, Some(to), zhu),
        ActionInfo::HacFrom { from, zhu } => hac_transfer_view(Some(from), None, zhu),
        ActionInfo::HacFromTo { from, to, zhu } => hac_transfer_view(Some(from), Some(to), zhu),
        ActionInfo::SatTo { to, satoshi } => transfer_view(None, Some(to), COINTY_SAT, satoshi),
        ActionInfo::SatFrom { from, satoshi } => transfer_view(Some(from), None, COINTY_SAT, satoshi),
        ActionInfo::SatFromTo { from, to, satoshi } => transfer_view(
            Some(from),
            Some(to),
            COINTY_SAT,
            satoshi,
        ),
        ActionInfo::DiaSingle { to } => transfer_view(None, Some(to), COINTY_DIA, 1),
        ActionInfo::DiaFrom { from, diamonds } => transfer_view(Some(from), None, COINTY_DIA, diamonds),
        ActionInfo::DiaTo { to, diamonds } => transfer_view(None, Some(to), COINTY_DIA, diamonds),
        ActionInfo::DiaFromTo { from, to, diamonds } => transfer_view(
            Some(from),
            Some(to),
            COINTY_DIA,
            diamonds,
        ),
        ActionInfo::DiamondMint { miner } => PlanView::MintDiamond(miner@),
        ActionInfo::ChannelOpen { left, right, channel_id, left_amount, right_amount } =>
            PlanView::ChannelOpen(left@, right@, channel_id@, left_amount@ + ","@ + right_amount@),
        ActionInfo::ChannelClose { channel_id } => PlanView::ChannelClose(channel_id@),
        ActionInfo::Other => PlanView::Ignore,
    }
}

fn plan_transfer(
    from: Option<&Result<String, String>>,
    to: Option<&Result<String, String>>,
    coin_type: u8,
    amount: u64,
) -> (r: Result<ActionPlan, String>)
    ensures
        plan_view(r) == transfer_view(
            match from {
                Some(f) => Some(*f),
                None => None,
            },
            match to {
                Some(t) => Some(*t),
                None => None,
            },
            coin_type,
            amount,
        ),
{
    let from_party = match from {
        Some(f) => resolved(f)?,
        None => Party::Main,
    };
    let to_party = match to {
        Some(t) => resolved(t)?,
        None => Party::Main,
    };
    Ok(ActionPlan::Transfer { from: from_party, to: to_party, coin_type, amount })
}

fn plan_hac_transfer(
    from: Option<&Result<String, String>>,
    to: Option<&Result<String, String>>,
    zhu: &Result<u128, String>,
) -> (r: Result<ActionPlan, String>)
    ensures
        plan_view(r) == hac_transfer_view(
            match from {
                Some(f) => Some(*f),
                None => None,
            },
            match to {
                Some(t) => Some(*t),
                None => None,
            },
            *zhu,
        ),
{
    match indexed_zhu(zhu)? {
        None => Ok(ActionPlan::Ignore),
        Some(z) => plan_transfer(from, to, COINTY_ZHU, z),
    }
}

/// Decides what indexing a top-level action records: HAC transfers of
/// 10000 through 10^14 zhu, every satoshi and diamond transfer, diamond
/// mints and channel openings and closings.
pub fn plan_action(a: &ActionInfo) -> (r: Result<ActionPlan, String>)
    ensures
        plan_view(r) == expected_plan(*a),
{
    match a {
        ActionInfo::HacTo { to, zhu } => plan_hac_transfer(None, Some(to), zhu),
        ActionInfo::HacFrom { from, zhu } => plan_hac_transfer(Some(from), None, zhu),
        ActionInfo::HacFromTo { from, to, zhu } => plan_hac_transfer(Some(from), Some(to), zhu),
        ActionInfo::SatTo { to, satoshi } => plan_transfer(None, Some(to), COINTY_SAT, *satoshi),
        ActionInfo::SatFrom { from, satoshi } => plan_transfer(Some(from), None, COINTY_SAT, *satoshi),
        ActionInfo::SatFromTo { from, to, satoshi } => plan_transfer(
            Some(from),
            Some(to),
            COINTY_SAT,
            *satoshi,
        ),
        ActionInfo::DiaSingle { to } => plan_transfer(None, Some(to), COINTY_DIA, 1),
        ActionInfo::DiaFrom { from, diamonds } => plan_transfer(Some(from), None, COINTY_DIA, *diamonds),
        ActionInfo::DiaTo { to, diamonds } => plan_transfer(None, Some(to), COINTY_DIA, *diamonds),
        ActionInfo::DiaFromTo { from, to, diamonds } => plan_transfer(
            Some(from),
            Some(to),
            COINTY_DIA,
            *diamonds,
        ),
        ActionInfo::DiamondMint { miner } => Ok(ActionPlan::MintDiamond { miner: miner.clone() }),
        ActionInfo::ChannelOpen { left, right, channel_id, left_amount, right_amount } => {
            let mut notes = left_amount.clone();
            notes.append(",");
            notes.append(right_amount.as_str());
            Ok(
                ActionPlan::ChannelOpen {
                    left: left.clone(),
                    right: right.clone(),
                    channel_id: channel_id.clone(),
                    notes,
                },
            )
        },
        ActionInfo::ChannelClose { channel_id } => Ok(
            ActionPlan::ChannelClose { channel_id: channel_id.clone() },
        ),
        ActionInfo::Other => Ok(ActionPlan::Ignore),
    }
}

/// Law: every transfer the index plans is of one of the three coins, and a
/// HAC transfer moves 10000 through 10^14 zhu.
pub proof fn lemma_planned_transfers(a: ActionInfo)
    ensures
        expected_plan(a) matches PlanView::Transfer(_, _, coin_type, amount) ==> {
            &&& is_coin_type(coin_type)
            &&& coin_type == COINTY_ZHU ==> MIN_INDEXED_ZHU <= amount <= MAX_INDEXED_ZHU
        },
{
}

/// Law: a transfer action's `from` address is the sender of the row it
/// records and its `to` address the receiver; the transaction's main address
/// takes the side the action does not name. HAC transfers are coin 1, BTC
/// transfers coin 2 and diamond transfers coin 3, with the action's amount
/// (one diamond for a single-diamond transfer). This holds whenever the
/// addresses resolve and, for HAC, the amount is indexed.
pub proof fn lemma_transfer_parties(a: ActionInfo)
    ensures
        a matches ActionInfo::HacTo { to: Ok(t), zhu: Ok(z) } ==> (10000 <= z <= 100_000_000_000_000 ==> expected_plan(a)
            == PlanView::Transfer(None, Some(t@), 1u8, z as u64)),
        a matches ActionInfo::HacFrom { from: Ok(f), zhu: Ok(z) } ==> (10000 <= z <= 100_000_000_000_000 ==> expected_plan(a)
            == PlanView::Transfer(Some(f@), None, 1u8, z as u64)),
        a matches ActionInfo::HacFromTo { from: Ok(f), to: Ok(t), zhu: Ok(z) } ==> (10000 <= z <= 100_000_000_000_000
            ==> expected_plan(a) == PlanView::Transfer(Some(f@), Some(t@), 1u8, z as u64)),
        a matches ActionInfo::SatTo { to: Ok(t), satoshi } ==> expected_plan(a) == PlanView::Transfer(
            None,
            Some(t@),
            2u8,
            satoshi,
        ),
        a matches ActionInfo::SatFrom { from: Ok(f), satoshi } ==> expected_plan(a) == PlanView::Transfer(
            Some(f@),
            None,
            2u8,
            satoshi,
        ),
        a matches ActionInfo::SatFromTo { from: Ok(f), to: Ok(t), satoshi } ==> expected_plan(a)
            == PlanView::Transfer(Some(f@), Some(t@), 2u8, satoshi),
        a matches ActionInfo::DiaSingle { to: Ok(t) } ==> expected_plan(a) == PlanView::Transfer(
            None,
            Some(t@),
            3u8,
            1u64,
        ),
        a matches ActionInfo::DiaFrom { from: Ok(f), diamonds } ==> expected_plan(a) == PlanView::Transfer(
            Some(f@),
            None,
            3u8,
            diamonds,
        ),
        a matches ActionInfo::DiaTo { to: Ok(t), diamonds } ==> expected_plan(a) == PlanView::Transfer(
            None,
            Some(t@),
            3u8,
            diamonds,
        ),
        a matches ActionInfo::DiaFromTo { from: Ok(f), to: Ok(t), diamonds } ==> expected_plan(a)
            == PlanView::Transfer(Some(f@), Some(t@), 3u8, diamonds),
{
}

} // verus!
