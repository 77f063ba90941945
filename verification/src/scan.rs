//! Block scanning rules: checkpoint continuity, per-block counters and the
//! catch-up batches.

use vstd::prelude::*;

use crate::active::{
    lemma_rotate_keeps_wf, record_current_active, rotate_sections, same_but_active, update_chain_active,
};
use crate::codec::pow256;
use crate::setting::{active_wf_fn, settings_encodable, ActiveItem, ScanSettings};
use crate::text::{decimal, push_decimal};

verus! {

/// `a + b`, or `u64::MAX` when that does not fit.
pub open spec fn sat_add(a: u64, b: u64) -> u64 {
    if a + b <= u64::MAX {
        (a + b) as u64
    } else {
        u64::MAX
    }
}

pub open spec fn gap_message(expected: u64, height: u64) -> Seq<char> {
    "hascan block gap: expected height "@ + decimal(expected as nat) + ", received "@ + decimal(
        height as nat,
    )
}

/// A block may follow the checkpoint when it is the next height; heights at
/// or below the checkpoint are replays and pass too. A later height is a gap.
pub fn validate_next_height(checkpoint: u64, height: u64) -> (r: Result<(), String>)
    ensures
        height <= sat_add(checkpoint, 1) ==> r is Ok,
        height > sat_add(checkpoint, 1) ==> (r matches Err(e) && e@ == gap_message(
            sat_add(checkpoint, 1),
            height,
        )),
{
    let expected = checkpoint.saturating_add(1);
    if height < expected {
        return Ok(());
    }
    if height != expected {
        let mut e = "hascan block gap: expected height ".to_owned();
        push_decimal(&mut e, expected);
        e.append(", received ");
        push_decimal(&mut e, height);
        return Err(e);
    }
    Ok(())
}

/// Whether a block is to be indexed: `Ok(false)` for a replayed block at or
/// below the checkpoint, `Ok(true)` for the next block, an error for a gap.
pub fn begin_block(checkpoint: u64, height: u64) -> (r: Result<bool, String>)
    ensures
        height < sat_add(checkpoint, 1) ==> r == Ok::<bool, String>(false),
        height == sat_add(checkpoint, 1) ==> r == Ok::<bool, String>(true),
        height > sat_add(checkpoint, 1) ==> (r matches Err(e) && e@ == gap_message(
            sat_add(checkpoint, 1),
            height,
        )),
{
    let expected = checkpoint.saturating_add(1);
    if height < expected {
        return Ok(false);
    }
    validate_next_height(checkpoint, height)?;
    Ok(true)
}

/// Adds a block reward (in mei) to an account's reward total.
pub fn add_block_reward(total: u64, reward: u64) -> (r: Result<u64, String>)
    ensures
        total + reward <= u64::MAX ==> r == Ok::<u64, String>((total + reward) as u64),
        total + reward > u64::MAX ==> (r matches Err(e) && e@ == "hascan block reward overflow"@),
{
    match total.checked_add(reward) {
        Some(v) => Ok(v),
        None => Err("hascan block reward overflow".to_owned()),
    }
}

/// Counts the transactions of a block but its first (the coinbase) in the
/// section of `height`.
pub fn record_block_transactions(setting: &mut ScanSettings, height: u64, transactions: usize) -> (r:
    Result<(), String>)
    ensures
        settings_encodable(old(setting)@) ==> settings_encodable(final(setting)@),
        ({
            let count: int = if transactions == 0 {
                0
            } else {
                transactions - 1
            };
            let rot = rotate_sections(old(setting).chain_active.lists@, height);
            if count > u32::MAX {
                &&& r matches Err(e) && e@ == "hascan transaction count overflow"@
                &&& final(setting)@ == old(setting)@
            } else {
                &&& same_but_active(old(setting)@, final(setting)@)
                &&& final(setting).chain_active.count == rot.len() as u8
                &&& if rot[0].txs + count <= u32::MAX {
                    &&& r is Ok
                    &&& final(setting).chain_active.lists@ == rot.update(
                        0,
                        ActiveItem { txs: (rot[0].txs + count) as u32, ..rot[0] },
                    )
                } else {
                    &&& r matches Err(e) && e@ == "hascan transaction count overflow"@
                    &&& final(setting).chain_active.lists@ == rot
                }
            }
        }),
{
    let total = transactions.saturating_sub(1);
    if total > u32::MAX as usize {
        return Err("hascan transaction count overflow".to_owned());
    }
    let count = total as u32;
    proof {
        if settings_encodable(setting@) {
            lemma_rotate_keeps_wf(setting@.chain_active.1, height);
            let rot = rotate_sections(setting.chain_active.lists@, height);
            assert(active_wf_fn()(rot[0]));
        }
    }
    let active = record_current_active(setting, height);
    match active.txs.checked_add(count) {
        Some(v) => {
            active.txs = v;
            Ok(())
        },
        None => Err("hascan transaction count overflow".to_owned()),
    }
}

/// Closes a block: counts the accounts it created in its section and moves
/// the checkpoint to it.
pub fn finish_block(setting: &mut ScanSettings, accounts_before: u64, height: u64) -> (r: Result<
    (),
    String,
>)
    ensures
        settings_encodable(old(setting)@) ==> settings_encodable(final(setting)@),
        ({
            let created: int = old(setting).auto_inc_address_id - accounts_before;
            let rot = rotate_sections(old(setting).chain_active.lists@, height);
            if created < 0 || created > u32::MAX {
                &&& r matches Err(e) && e@ == "hascan new address count overflow"@
                &&& final(setting)@ == old(setting)@
            } else if rot[0].newadr + created > u32::MAX {
                &&& r matches Err(e) && e@ == "hascan new address count overflow"@
                &&& same_but_active(old(setting)@, final(setting)@)
                &&& final(setting).chain_active.lists@ == rot
            } else if height >= pow256(5) {
                &&& r matches Err(e) && e@ == "hascan block height exceeds Uint5"@
                &&& same_but_active(old(setting)@, final(setting)@)
            } else {
                &&& r is Ok
                &&& final(setting).height == height
                &&& final(setting).auto_inc_address_id == old(setting).auto_inc_address_id
                &&& final(setting).chain_active.count == rot.len() as u8
                &&& final(setting).chain_active.lists@ == rot.update(
                    0,
                    ActiveItem { newadr: (rot[0].newadr + created) as u32, ..rot[0] },
                )
                &&& final(setting)@ == (crate::setting::SettingsView {
                    height: height,
                    chain_active: final(setting)@.chain_active,
                    ..old(setting)@
                })
            }
        }),
{
    let created = match setting.auto_inc_address_id.checked_sub(accounts_before) {
        Some(v) => v,
        None => return Err("hascan new address count overflow".to_owned()),
    };
    if created > u32::MAX as u64 {
        return Err("hascan new address count overflow".to_owned());
    }
    update_chain_active(setting, created as u32, height)?;
    proof {
        crate::codec::lemma_pow256_values();
    }
    if height >= 0x100_0000_0000 {
        return Err("hascan block height exceeds Uint5".to_owned());
    }
    setting.height = height;
    Ok(())
}

/// The height catch-up works towards: the stable height, capped by
/// `stop_at_height` unless that is 0.
pub fn catch_up_target(stable_height: u64, stop_at_height: u64) -> (r: u64)
    ensures
        stop_at_height == 0 ==> r == stable_height,
        stop_at_height != 0 ==> r == (if stable_height < stop_at_height {
            stable_height
        } else {
            stop_at_height
        }),
{
    if stop_at_height == 0 {
        stable_height
    } else if stable_height < stop_at_height {
        stable_height
    } else {
        stop_at_height
    }
}

/// The last height of the next batch: `scan_batch_blocks` past the
/// checkpoint, but not past the target.
pub fn batch_end(current: u64, scan_batch_blocks: u64, target: u64) -> (r: u64)
    ensures
        r == (if sat_add(current, scan_batch_blocks) < target {
            sat_add(current, scan_batch_blocks)
        } else {
            target
        }),
{
    let end = current.saturating_add(scan_batch_blocks);
    if end < target {
        end
    } else {
        target
    }
}

/// Law: while the checkpoint is below the target, a batch of at least one
/// block makes progress and never passes the target.
pub proof fn lemma_batches_progress(current: u64, scan_batch_blocks: u64, target: u64)
    requires
        current < target,
        scan_batch_blocks >= 1,
    ensures
        ({
            let end = if sat_add(current, scan_batch_blocks) < target {
                sat_add(current, scan_batch_blocks)
            } else {
                target
            };
            current < end <= target
        }),
{
}

/// Takes the next account id: the counter grows by one and its new value is
/// the id, which must fit the counter's five bytes.
pub fn next_account_id(setting: &mut ScanSettings) -> (r: Result<u64, String>)
    ensures
        settings_encodable(old(setting)@) ==> settings_encodable(final(setting)@),
        old(setting).auto_inc_address_id + 1 < pow256(5) ==> r == Ok::<u64, String>(
            (old(setting).auto_inc_address_id + 1) as u64,
        ) && final(setting)@ == (crate::setting::SettingsView {
            auto_inc_address_id: (old(setting).auto_inc_address_id + 1) as u64,
            ..old(setting)@
        }),
        old(setting).auto_inc_address_id + 1 >= pow256(5) ==> (r matches Err(e) && e@
            == "hascan account ID exceeds Uint5"@) && final(setting)@ == old(setting)@,
{
    proof {
        crate::codec::lemma_pow256_values();
    }
    if setting.auto_inc_address_id >= 0xff_ffff_ffff {
        return Err("hascan account ID exceeds Uint5".to_owned());
    }
    setting.auto_inc_address_id = setting.auto_inc_address_id + 1;
    Ok(setting.auto_inc_address_id)
}

/// The id of an account seen in a block, and whether the block creates it:
/// the cached id, else the stored id, else a new id from the account
/// counter (see `next_account_id`). Only a new account changes the snapshot.
pub fn account_id(cached: Option<u64>, stored: Option<u64>, setting: &mut ScanSettings) -> (r: Result<
    (bool, u64),
    String,
>)
    ensures
        settings_encodable(old(setting)@) ==> settings_encodable(final(setting)@),
        cached matches Some(id) ==> r == Ok::<(bool, u64), String>((false, id)) && final(setting)@ == old(
            setting,
        )@,
        cached is None ==> (stored matches Some(id) ==> r == Ok::<(bool, u64), String>((false, id))
            && final(setting)@ == old(setting)@),
        cached is None && stored is None && old(setting).auto_inc_address_id + 1 < pow256(5) ==> r == Ok::<
            (bool, u64),
            String,
        >((true, (old(setting).auto_inc_address_id + 1) as u64)) && final(setting)@ == (crate::setting::SettingsView {
            auto_inc_address_id: (old(setting).auto_inc_address_id + 1) as u64,
            ..old(setting)@
        }),
        cached is None && stored is None && old(setting).auto_inc_address_id + 1 >= pow256(5) ==> (r matches Err(
            e,
        ) && e@ == "hascan account ID exceeds Uint5"@) && final(setting)@ == old(setting)@,
{
    if let Some(id) = cached {
        return Ok((false, id));
    }
    if let Some(id) = stored {
        return Ok((false, id));
    }
    let id = next_account_id(setting)?;
    Ok((true, id))
}

} // verus!
