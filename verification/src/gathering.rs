//! Harvest nodes: which item a gatherer finds at which aim.

use vstd::prelude::*;

verus! {

/// Number of aim positions on a harvest node (aim 0, 10, ..., 100).
pub const AIM_SLOTS: usize = 11;

/// Distance in aim between two neighbouring slots.
pub const AIM_STEP: u32 = 10;

/// Highest aim a node item can sit at.
pub const AIM_MAX: u32 = 100;

/// An item a harvest node can yield.
#[derive(Debug, Clone, Copy, PartialEq, Eq)]
pub struct GatherItem {
    /// Key of the item in the gathering catalog.
    pub key: u32,
    /// Catalog id of the item handed out.
    pub item_catalog_id: u32,
    /// Strikes the node takes before it runs dry.
    pub remainder: u32,
    /// Aim (0 to 100) at which the item sits.
    pub aim: u32,
    /// Sweet spot of the strike gauge.
    pub sweetspot: u32,
    /// Largest number of items one strike yields.
    pub max_yield: u32,
}

/// One aim position of a node, empty or holding an item.
#[derive(Debug, Clone, Copy, PartialEq, Eq)]
pub struct AimSlot {
    pub empty: bool,
    pub item_key: u32,
    pub item_catalog_id: u32,
    pub remainder: u32,
    pub sweetspot: u32,
    pub max_yield: u32,
}

/// The slot an aim falls in: `aim / 10`, for aims up to 100.
pub open spec fn aim_index(aim: u32) -> Option<int> {
    if aim <= AIM_MAX {
        Some((aim / AIM_STEP) as int)
    } else {
        None
    }
}

/// A slot with nothing in it.
pub open spec fn empty_slot() -> AimSlot {
    AimSlot { empty: true, item_key: 0, item_catalog_id: 0, remainder: 0, sweetspot: 0, max_yield: 0 }
}

/// The slot holding `it`.
pub open spec fn slot_of(it: GatherItem) -> AimSlot {
    AimSlot {
        empty: false,
        item_key: it.key,
        item_catalog_id: it.item_catalog_id,
        remainder: it.remainder,
        sweetspot: it.sweetspot,
        max_yield: it.max_yield,
    }
}

/// Whether item `i` is the first of the node whose aim falls in slot `k`.
pub open spec fn first_at_slot(items: Seq<GatherItem>, k: int, i: int) -> bool {
    &&& 0 <= i < items.len()
    &&& aim_index(items[i].aim) == Some(k)
    &&& forall|j: int| 0 <= j < i ==> aim_index(#[trigger] items[j].aim) != Some(k)
}

/// Whether some item of the node falls in slot `k`.
pub open spec fn has_item_at_slot(items: Seq<GatherItem>, k: int) -> bool {
    exists|i: int| 0 <= i < items.len() && aim_index(#[trigger] items[i].aim) == Some(k)
}

/// Whether `s` holds the first item of the node whose aim falls in slot `k`.
pub open spec fn holds_first_at(items: Seq<GatherItem>, k: int, s: AimSlot) -> bool {
    exists|i: int| #![trigger first_at_slot(items, k, i)] first_at_slot(items, k, i) && s == slot_of(items[i])
}

/// The slot an aim falls in, if the aim is on the gauge.
pub fn aim_slot_index(aim: u32) -> (res: Option<usize>)
    ensures
        res matches Some(k) ==> aim_index(aim) == Some(k as int) && k < AIM_SLOTS,
        res is None <==> aim_index(aim) is None,
{
    if aim <= AIM_MAX {
        Some((aim / AIM_STEP) as usize)
    } else {
        None
    }
}

/// Lays a node's items out over its eleven aim slots: slot `k` holds
/// the first item whose aim falls in it, and is empty when none does.
/// Items aimed past 100 are left off.
pub fn build_aim_slots(items: &Vec<GatherItem>) -> (res: Vec<AimSlot>)
    ensures
        res@.len() == AIM_SLOTS,
        forall|k: int|
            0 <= k < AIM_SLOTS && !has_item_at_slot(items@, k) ==> #[trigger] res@[k] == empty_slot(),
        forall|k: int|
            0 <= k < AIM_SLOTS && has_item_at_slot(items@, k) ==> holds_first_at(items@, k, #[trigger] res@[k]),
{
    let mut out: Vec<AimSlot> = Vec::new();
    let mut k: usize = 0;
    while k < AIM_SLOTS
        invariant
            k <= AIM_SLOTS,
            out@.len() == k,
            forall|m: int| 0 <= m < k && !has_item_at_slot(items@, m) ==> #[trigger] out@[m] == empty_slot(),
            forall|m: int|
                0 <= m < k && has_item_at_slot(items@, m) ==> holds_first_at(items@, m, #[trigger] out@[m]),
        decreases AIM_SLOTS - k,
    {
        let mut found: Option<usize> = None;
        let mut i: usize = 0;
        while i < items.len()
            invariant
                i <= items@.len(),
                k < AIM_SLOTS,
                found is None ==> forall|j: int| 0 <= j < i ==> aim_index(#[trigger] items@[j].aim) != Some(k as int),
                found matches Some(f) ==> first_at_slot(items@, k as int, f as int),
            decreases items@.len() - i,
        {
            if found.is_none() {
                let a = items[i].aim;
                if a <= AIM_MAX && (a / AIM_STEP) as usize == k {
                    found = Some(i);
                }
            }
            i = i + 1;
        }
        let slot = match found {
            None => AimSlot { empty: true, item_key: 0, item_catalog_id: 0, remainder: 0, sweetspot: 0, max_yield: 0 },
            Some(f) => {
                let it = items[f];
                AimSlot {
                    empty: false,
                    item_key: it.key,
                    item_catalog_id: it.item_catalog_id,
                    remainder: it.remainder,
                    sweetspot: it.sweetspot,
                    max_yield: it.max_yield,
                }
            },
        };
        let ghost before = out@;
        out.push(slot);
        proof {
            assert forall|m: int| 0 <= m < k + 1 && !has_item_at_slot(items@, m) implies #[trigger] out@[m]
                == empty_slot() by {
                if m < k {
                    assert(out@[m] == before[m]);
                }
            }
            assert forall|m: int| 0 <= m < k + 1 && has_item_at_slot(items@, m) implies holds_first_at(
                items@,
                m,
                #[trigger] out@[m],
            ) by {
                if m < k {
                    assert(out@[m] == before[m]);
                } else {
                    match found {
                        Some(f) => {
                            assert(first_at_slot(items@, m, f as int));
                        },
                        None => {
                            let j = choose|j: int| 0 <= j < items@.len() && aim_index(#[trigger] items@[j].aim) == Some(m);
                            assert(aim_index(items@[j].aim) != Some(k as int));
                        },
                    }
                }
            }
        }
        k = k + 1;
    }
    out
}

} // verus!
