//! Chain activity statistics, kept in sections of 2000 blocks, newest first.

use vstd::prelude::*;

use crate::setting::{sections_wf, ActiveItem, ScanSettings, SettingsView};

verus! {

/// Blocks per activity section.
pub const SECTION_BLOCKS: u64 = 2000;

/// Sections kept.
pub const MAX_SECTIONS: usize = 25;

/// The section number of a block height: heights 1..=2000 are section 1,
/// and height 0 counts as section 1.
pub open spec fn section_of(height: u64) -> nat {
    (if height == 0 {
        0
    } else {
        height - 1
    }) as nat / 2000 + 1
}

/// A fresh section with all counters at zero.
pub open spec fn new_section(secnum: u32) -> ActiveItem {
    ActiveItem {
        secnum,
        newadr: 0,
        txs: 0,
        trszhu: 0,
        trssat: 0,
        trsdia: 0,
        mvzhu: 0,
        mvsat: 0,
        mvdia: 0,
    }
}

/// The section list once the section of `height` is current.
pub open spec fn rotate_sections(lists: Seq<ActiveItem>, height: u64) -> Seq<ActiveItem> {
    let cursec = section_of(height);
    let acone = new_section(cursec as u32);
    if lists.len() > 0 && lists[0].secnum as nat == cursec {
        lists
    } else {
        let l1 = if lists.len() == 0 {
            seq![acone]
        } else {
            lists
        };
        let l2 = if l1[0].secnum as nat != cursec {
            seq![acone] + l1
        } else {
            l1
        };
        if l2.len() > 25 {
            l2.take(25)
        } else {
            l2
        }
    }
}

/// `b` is `a` with only the activity sections changed.
pub open spec fn same_but_active(a: SettingsView, b: SettingsView) -> bool {
    &&& b.height == a.height
    &&& b.auto_inc_address_id == a.auto_inc_address_id
    &&& b._1 == a._1
    &&& b._2 == a._2
    &&& b.rank_zhu == a.rank_zhu
    &&& b.rank_sat == a.rank_sat
    &&& b.rank_dia == a.rank_dia
    &&& b._11 == a._11
    &&& b._12 == a._12
    &&& b._13 == a._13
    &&& b._14 == a._14
}

/// Law: once the section of `height` is made current, it is the first
/// section, at least one section is kept and no more than 25 when there
/// were no more before, and making it current again changes nothing. This
/// holds while the section number fits its four bytes.
pub proof fn lemma_rotate_sections(lists: Seq<ActiveItem>, height: u64)
    requires
        section_of(height) <= u32::MAX,
    ensures
        rotate_sections(lists, height).len() >= 1,
        rotate_sections(lists, height)[0].secnum == section_of(height),
        lists.len() <= MAX_SECTIONS ==> rotate_sections(lists, height).len() <= MAX_SECTIONS,
        rotate_sections(rotate_sections(lists, height), height) == rotate_sections(lists, height),
{
}

/// Law: making a section current keeps every section's counters within
/// their encodings.
pub proof fn lemma_rotate_keeps_wf(lists: Seq<ActiveItem>, height: u64)
    requires
        sections_wf(lists),
    ensures
        sections_wf(rotate_sections(lists, height)),
        rotate_sections(lists, height).len() >= 1,
        forall|a: ActiveItem|
            crate::setting::active_wf(a) ==> #[trigger] sections_wf(rotate_sections(lists, height).update(0, a)),
{
    crate::codec::lemma_pow256_values();
    let rot = rotate_sections(lists, height);
    assert forall|i: int| 0 <= i < rot.len() implies #[trigger] crate::setting::active_wf_fn()(rot[i]) by {
        if i > 0 && !(lists.len() > 0 && lists[0].secnum as nat == section_of(height)) && lists.len() > 0 {
            assert(crate::setting::active_wf_fn()(lists[i - 1]));
        }
    }
    assert forall|a: ActiveItem| crate::setting::active_wf(a) implies #[trigger] sections_wf(rot.update(0, a)) by {
        assert forall|i: int| 0 <= i < rot.len() implies #[trigger] crate::setting::active_wf_fn()(rot.update(0, a)[i]) by {
            if i > 0 {
                assert(crate::setting::active_wf_fn()(rot[i]));
            }
        }
    }
}

/// Makes the section of `height` the first one, opening it when it is new
/// and keeping at most 25 sections when one is opened; the count becomes the
/// list length. Returns the current section for updating.
pub fn record_current_active(setting: &mut ScanSettings, height: u64) -> (r: &mut ActiveItem)
    ensures
        *r == rotate_sections(old(setting).chain_active.lists@, height)[0],
        final(setting).chain_active.lists@ == rotate_sections(
            old(setting).chain_active.lists@,
            height,
        ).update(0, *final(r)),
        final(setting).chain_active.count == rotate_sections(
            old(setting).chain_active.lists@,
            height,
        ).len() as u8,
        same_but_active(old(setting)@, final(setting)@),
{
    let sub = if height == 0 {
        0
    } else {
        height - 1
    };
    let cursec: u64 = sub / SECTION_BLOCKS + 1;
    let ghost expected = rotate_sections(setting.chain_active.lists@, height);
    let same_cursec = setting.chain_active.lists.len() > 0
        && setting.chain_active.lists[0].secnum as u64 == cursec;
    if !same_cursec {
        let acone = ActiveItem {
            secnum: cursec as u32,
            newadr: 0,
            txs: 0,
            trszhu: 0,
            trssat: 0,
            trsdia: 0,
            mvzhu: 0,
            mvsat: 0,
            mvdia: 0,
        };
        if setting.chain_active.lists.len() == 0 {
            setting.chain_active.lists.push(acone);
        }
        if setting.chain_active.lists[0].secnum as u64 != cursec {
            setting.chain_active.lists.insert(0, acone);
        }
        if setting.chain_active.lists.len() > MAX_SECTIONS {
            setting.chain_active.lists.truncate(MAX_SECTIONS);
        }
    }
    assert(setting.chain_active.lists@ =~= expected);
    setting.chain_active.count = setting.chain_active.lists.len() as u8;
    &mut setting.chain_active.lists[0]
}


/// Counts `newadr` new accounts in the section of `height`.
pub fn update_chain_active(setting: &mut ScanSettings, newadr: u32, height: u64) -> (r: Result<(), String>)
    ensures
        crate::setting::settings_encodable(old(setting)@) ==> crate::setting::settings_encodable(final(setting)@),
        ({
            let rot = rotate_sections(old(setting).chain_active.lists@, height);
            &&& same_but_active(old(setting)@, final(setting)@)
            &&& final(setting).chain_active.count == rot.len() as u8
            &&& if rot[0].newadr + newadr <= u32::MAX {
                &&& r is Ok
                &&& final(setting).chain_active.lists@ == rot.update(
                    0,
                    ActiveItem { newadr: (rot[0].newadr + newadr) as u32, ..rot[0] },
                )
            } else {
                &&& r matches Err(e) && e@ == "hascan new address count overflow"@
                &&& final(setting).chain_active.lists@ == rot
            }
        }),
{
    proof {
        if crate::setting::settings_encodable(setting@) {
            lemma_rotate_keeps_wf(setting@.chain_active.1, height);
        }
    }
    let ghost rot = rotate_sections(setting.chain_active.lists@, height);
    let secc = record_current_active(setting, height);
    let r = match secc.newadr.checked_add(newadr) {
        Some(v) => {
            secc.newadr = v;
            Ok(())
        },
        None => Err("hascan new address count overflow".to_owned()),
    };
    proof {
        if crate::setting::settings_encodable(old(setting)@) {
            assert(crate::setting::active_wf_fn()(rot[0]));
            assert(sections_wf(rot.update(0, setting.chain_active.lists@[0])));
            assert(setting@.chain_active.1 == rot.update(0, setting.chain_active.lists@[0]));
        }
    }
    r
}

/// Law: when the section of `height` is not the first one, the section
/// made current is a fresh one: numbered for `height`, with every counter
/// at 0, put in front of the sections there were, which follow it in order.
pub proof fn lemma_new_section_is_fresh(lists: Seq<ActiveItem>, height: u64)
    requires
        !(lists.len() > 0 && lists[0].secnum as nat == section_of(height)),
    ensures
        rotate_sections(lists, height)[0] == (ActiveItem {
            secnum: section_of(height) as u32,
            newadr: 0,
            txs: 0,
            trszhu: 0,
            trssat: 0,
            trsdia: 0,
            mvzhu: 0,
            mvsat: 0,
            mvdia: 0,
        }),
        lists.len() > 0 ==> forall|i: int|
            0 <= i < rotate_sections(lists, height).len() - 1 ==> #[trigger] rotate_sections(lists, height)[i
                + 1] == lists[i],
        lists.len() > 0 ==> rotate_sections(lists, height).len() == if lists.len() + 1 > MAX_SECTIONS {
            MAX_SECTIONS as int
        } else {
            (lists.len() + 1) as int
        },
{
}

} // verus!
