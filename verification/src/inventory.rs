//! Item packages: currency balances, stacks in a bag, key items, and
//! how a list of items is split across inventory list packets.

use vstd::prelude::*;

verus! {

/// The main bag.
pub const PKG_NORMAL: u16 = 0;

/// Currency and crystals.
pub const PKG_CURRENCY_CRYSTALS: u16 = 99;

/// Key items.
pub const PKG_KEYITEMS: u16 = 100;

/// Slots in the main bag.
pub const CAP_NORMAL: u16 = 200;

/// Slots in the currency package.
pub const CAP_CURRENCY: u16 = 320;

/// Slots in the key-item package.
pub const CAP_KEYITEMS: u16 = 500;

/// Catalog id of gil.
pub const ITEM_GIL: u32 = 1_000_001;

/// A currency balance after adding `delta` (negative to spend): never
/// below zero, stopping at `i32::MAX`.
pub open spec fn spec_add_currency(balance: i32, delta: i32) -> i32 {
    clamp_currency(balance + delta)
}

/// A currency amount held between zero and `i32::MAX`.
pub open spec fn clamp_currency(t: int) -> i32 {
    if t < 0 {
        0
    } else if t > i32::MAX {
        i32::MAX
    } else {
        t as i32
    }
}

/// Adds `delta` to a currency balance (gil, seals).
pub fn add_currency(balance: i32, delta: i32) -> (res: i32)
    ensures
        res == spec_add_currency(balance, delta),
        res >= 0,
{
    let t: i64 = balance as i64 + delta as i64;
    if t < 0 {
        0
    } else if t > i32::MAX as i64 {
        i32::MAX
    } else {
        t as i32
    }
}

/// One stack in a package.
#[derive(Debug, Clone, Copy, PartialEq, Eq)]
pub struct InventoryItem {
    /// Server-side id of the stack.
    pub unique_id: u64,
    pub item_id: u32,
    pub quantity: i32,
    pub quality: u8,
    pub slot: u16,
}

/// A package: its stacks and how many slots it has.
pub struct ItemPackage {
    pub capacity: u16,
    pub items: Vec<InventoryItem>,
}

/// Whether stack `i` is the first of `item_id` at `quality`.
pub open spec fn is_first_stack(items: Seq<InventoryItem>, item_id: u32, quality: u8, i: int) -> bool {
    &&& 0 <= i < items.len()
    &&& items[i].item_id == item_id
    &&& items[i].quality == quality
    &&& forall|j: int|
        0 <= j < i ==> !(#[trigger] items[j].item_id == item_id && items[j].quality == quality)
}

/// Whether some stack holds `item_id` at `quality`.
pub open spec fn has_stack(items: Seq<InventoryItem>, item_id: u32, quality: u8) -> bool {
    exists|i: int| 0 <= i < items.len() && #[trigger] items[i].item_id == item_id && items[i].quality == quality
}

/// Whether some stack sits in `slot`.
pub open spec fn slot_used(items: Seq<InventoryItem>, slot: int) -> bool {
    exists|i: int| 0 <= i < items.len() && #[trigger] items[i].slot == slot
}

/// Whether `slot` is the lowest slot below `capacity` that no stack uses.
pub open spec fn is_first_free_slot(items: Seq<InventoryItem>, capacity: int, slot: int) -> bool {
    &&& 0 <= slot < capacity
    &&& !slot_used(items, slot)
    &&& forall|s: int| 0 <= s < slot ==> #[trigger] slot_used(items, s)
}

/// What adding items to a package did.
#[derive(Debug, Clone, Copy, PartialEq, Eq)]
pub enum AddItemOutcome {
    /// Merged into the stack at `index`, which now holds `total`.
    Merged { index: usize, total: i32 },
    /// A new stack was made in `slot`.
    NewStack { slot: u16 },
    /// No slot was free; nothing changed.
    Full,
}

/// Whether adding `quantity` of `item_id` at `quality` to stacks
/// `items` of a package with `capacity` slots may report `res` and leave
/// `after`: merged into the first stack of that item and quality
/// (stopping at `i32::MAX`), or else a new stack with id `unique_id` in
/// the lowest free slot, or, with every slot taken, nothing changed.
pub open spec fn add_item_result(
    items: Seq<InventoryItem>,
    capacity: int,
    item_id: u32,
    quantity: i32,
    quality: u8,
    unique_id: u64,
    res: AddItemOutcome,
    after: Seq<InventoryItem>,
) -> bool {
    match res {
        AddItemOutcome::Merged { index, total } => {
            &&& is_first_stack(items, item_id, quality, index as int)
            &&& total == spec_add_currency(items[index as int].quantity, quantity)
            &&& after == items.update(index as int, InventoryItem { quantity: total, ..items[index as int] })
        },
        AddItemOutcome::NewStack { slot } => {
            &&& !has_stack(items, item_id, quality)
            &&& is_first_free_slot(items, capacity, slot as int)
            &&& after == items.push(InventoryItem { unique_id, item_id, quantity, quality, slot })
        },
        AddItemOutcome::Full => {
            &&& !has_stack(items, item_id, quality)
            &&& forall|s: int| 0 <= s < capacity ==> #[trigger] slot_used(items, s)
            &&& after == items
        },
    }
}

impl ItemPackage {
    /// An empty package with `capacity` slots.
    pub fn new(capacity: u16) -> (res: ItemPackage)
        ensures
            res.capacity == capacity,
            res.items@.len() == 0,
    {
        ItemPackage { capacity, items: Vec::new() }
    }

    /// Index of the first stack of `item_id` at `quality`.
    pub fn find_stack(&self, item_id: u32, quality: u8) -> (res: Option<usize>)
        ensures
            res is None <==> !has_stack(self.items@, item_id, quality),
            res matches Some(i) ==> is_first_stack(self.items@, item_id, quality, i as int),
    {
        let mut i: usize = 0;
        while i < self.items.len()
            invariant
                i <= self.items@.len(),
                forall|j: int|
                    0 <= j < i ==> !(#[trigger] self.items@[j].item_id == item_id
                        && self.items@[j].quality == quality),
            decreases self.items@.len() - i,
        {
            if self.items[i].item_id == item_id && self.items[i].quality == quality {
                return Some(i);
            }
            i = i + 1;
        }
        None
    }

    /// Whether some stack sits in `slot`.
    pub fn is_slot_used(&self, slot: u16) -> (res: bool)
        ensures
            res == slot_used(self.items@, slot as int),
    {
        let mut i: usize = 0;
        while i < self.items.len()
            invariant
                i <= self.items@.len(),
                forall|j: int| 0 <= j < i ==> #[trigger] self.items@[j].slot != slot,
            decreases self.items@.len() - i,
        {
            if self.items[i].slot == slot {
                return true;
            }
            i = i + 1;
        }
        false
    }

    /// The lowest free slot, if the package has one.
    pub fn first_free_slot(&self) -> (res: Option<u16>)
        ensures
            res matches Some(s) ==> is_first_free_slot(self.items@, self.capacity as int, s as int),
            res is None ==> forall|s: int| 0 <= s < self.capacity ==> #[trigger] slot_used(self.items@, s),
    {
        let mut s: u16 = 0;
        while s < self.capacity
            invariant
                s <= self.capacity,
                forall|t: int| 0 <= t < s ==> #[trigger] slot_used(self.items@, t),
            decreases self.capacity - s,
        {
            if !self.is_slot_used(s) {
                return Some(s);
            }
            s = s + 1;
        }
        None
    }

    /// Adds `quantity` of `item_id` at `quality`: merged into the first
    /// stack of that item and quality (stopping at `i32::MAX`), or else
    /// a new stack with id `unique_id` in the lowest free slot; a full
    /// package changes nothing.
    pub fn add_item(&mut self, item_id: u32, quantity: i32, quality: u8, unique_id: u64) -> (res:
        AddItemOutcome)
        requires
            quantity > 0,
        ensures
            final(self).capacity == old(self).capacity,
            add_item_result(
                old(self).items@,
                old(self).capacity as int,
                item_id,
                quantity,
                quality,
                unique_id,
                res,
                final(self).items@,
            ),
    {
        match self.find_stack(item_id, quality) {
            Some(i) => {
                let mut it = self.items[i];
                let total = add_currency(it.quantity, quantity);
                it.quantity = total;
                self.items.set(i, it);
                AddItemOutcome::Merged { index: i, total }
            },
            None => match self.first_free_slot() {
                Some(slot) => {
                    self.items.push(InventoryItem { unique_id, item_id, quantity, quality, slot });
                    AddItemOutcome::NewStack { slot }
                },
                None => AddItemOutcome::Full,
            },
        }
    }

    /// Adds a key item, which a player holds at most once: an item
    /// already held (at any quality) changes nothing and returns `false`.
    pub fn add_key_item(&mut self, item_id: u32, unique_id: u64) -> (res: bool)
        ensures
            final(self).capacity == old(self).capacity,
            res ==> !(exists|i: int| 0 <= i < old(self).items@.len() && #[trigger] old(self).items@[i].item_id == item_id)
                && final(self).items@.len() == old(self).items@.len() + 1
                && final(self).items@.drop_last() == old(self).items@
                && final(self).items@.last().item_id == item_id
                && final(self).items@.last().quantity == 1
                && final(self).items@.last().unique_id == unique_id
                && is_first_free_slot(old(self).items@, old(self).capacity as int, final(self).items@.last().slot as int),
            !res ==> final(self).items@ == old(self).items@,
            !res ==> (exists|i: int| 0 <= i < old(self).items@.len() && #[trigger] old(self).items@[i].item_id == item_id)
                || forall|s: int| 0 <= s < old(self).capacity ==> #[trigger] slot_used(old(self).items@, s),
    {
        let mut i: usize = 0;
        while i < self.items.len()
            invariant
                i <= self.items@.len(),
                *self == *old(self),
                forall|j: int| 0 <= j < i ==> #[trigger] self.items@[j].item_id != item_id,
            decreases self.items@.len() - i,
        {
            if self.items[i].item_id == item_id {
                return false;
            }
            i = i + 1;
        }
        match self.first_free_slot() {
            Some(slot) => {
                self.items.push(InventoryItem { unique_id, item_id, quantity: 1, quality: 1, slot });
                assert(self.items@.drop_last() =~= old(self).items@);
                true
            },
            None => false,
        }
    }
}

/// What removing items from a package did.
#[derive(Debug, Clone, Copy, PartialEq, Eq)]
pub enum RemoveItemOutcome {
    /// The stack at `index` now holds `left` (more than zero).
    Reduced { index: usize, left: i32 },
    /// The stack was used up and left `slot` free.
    Depleted { slot: u16 },
    /// No stack of the item, or not enough in the first one; nothing changed.
    NotEnough,
}

/// Whether stack `i` is the first of `item_id`, at any quality.
pub open spec fn is_first_of_item(items: Seq<InventoryItem>, item_id: u32, i: int) -> bool {
    &&& 0 <= i < items.len()
    &&& items[i].item_id == item_id
    &&& forall|j: int| 0 <= j < i ==> #[trigger] items[j].item_id != item_id
}

impl ItemPackage {
    /// Takes `quantity` of `item_id` out of its first stack. A stack
    /// brought to zero leaves the package and frees its slot; asking for
    /// more than the first stack holds, or for an item not held, changes
    /// nothing.
    pub fn remove_item(&mut self, item_id: u32, quantity: i32) -> (res: RemoveItemOutcome)
        requires
            quantity > 0,
        ensures
            final(self).capacity == old(self).capacity,
            match res {
                RemoveItemOutcome::Reduced { index, left } => {
                    &&& is_first_of_item(old(self).items@, item_id, index as int)
                    &&& left == old(self).items@[index as int].quantity - quantity
                    &&& left > 0
                    &&& final(self).items@ == old(self).items@.update(
                        index as int,
                        InventoryItem { quantity: left, ..old(self).items@[index as int] },
                    )
                },
                RemoveItemOutcome::Depleted { slot } => exists|i: int| {
                    &&& is_first_of_item(old(self).items@, item_id, i)
                    &&& old(self).items@[i].quantity == quantity
                    &&& slot == old(self).items@[i].slot
                    &&& final(self).items@ == old(self).items@.remove(i)
                },
                RemoveItemOutcome::NotEnough => {
                    &&& final(self).items@ == old(self).items@
                    &&& forall|i: int|
                        is_first_of_item(old(self).items@, item_id, i) ==> old(self).items@[i].quantity
                            < quantity
                },
            },
    {
        let mut i: usize = 0;
        while i < self.items.len()
            invariant
                i <= self.items@.len(),
                *self == *old(self),
                quantity > 0,
                forall|j: int| 0 <= j < i ==> #[trigger] self.items@[j].item_id != item_id,
            decreases self.items@.len() - i,
        {
            if self.items[i].item_id == item_id {
                let it = self.items[i];
                if it.quantity < quantity {
                    return RemoveItemOutcome::NotEnough;
                }
                if it.quantity == quantity {
                    let removed = self.items.remove(i);
                    return RemoveItemOutcome::Depleted { slot: removed.slot };
                }
                let left = it.quantity - quantity;
                self.items.set(i, InventoryItem { quantity: left, ..it });
                return RemoveItemOutcome::Reduced { index: i, left };
            }
            i = i + 1;
        }
        RemoveItemOutcome::NotEnough
    }
}

/// Inventory list packets, by how many items each carries at most.
#[derive(Debug, Clone, Copy, PartialEq, Eq)]
pub enum ListPacket {
    X64,
    X32,
    X16,
    X08,
    X01,
}

/// Most items a list packet carries.
pub open spec fn list_capacity(p: ListPacket) -> int {
    match p {
        ListPacket::X64 => 64,
        ListPacket::X32 => 32,
        ListPacket::X16 => 16,
        ListPacket::X08 => 8,
        ListPacket::X01 => 1,
    }
}

/// The packets that carry `n` items: a full X64, X32 or X16 while at
/// least that many remain, then an X08 for the next two to eight, and
/// an X01 for a single item left.
pub open spec fn list_batches(n: int) -> Seq<(ListPacket, int)>
    decreases n,
{
    if n <= 0 {
        Seq::empty()
    } else if n >= 64 {
        seq![(ListPacket::X64, 64)] + list_batches(n - 64)
    } else if n >= 32 {
        seq![(ListPacket::X32, 32)] + list_batches(n - 32)
    } else if n >= 16 {
        seq![(ListPacket::X16, 16)] + list_batches(n - 16)
    } else if n >= 2 {
        let k = if n > 8 { 8 } else { n };
        seq![(ListPacket::X08, k)] + list_batches(n - k)
    } else {
        seq![(ListPacket::X01, 1int)]
    }
}

/// Splits `n` items into list packets, each with the number of items
/// it carries, in sending order.
pub fn list_packet_batches(n: usize) -> (res: Vec<(ListPacket, usize)>)
    ensures
        res@.len() == list_batches(n as int).len(),
        forall|i: int| 0 <= i < res@.len() ==> (#[trigger] res@[i]).0 == list_batches(n as int)[i].0
            && res@[i].1 as int == list_batches(n as int)[i].1,
{
    let mut out: Vec<(ListPacket, usize)> = Vec::new();
    let mut left: usize = n;
    let ghost mut sent: Seq<(ListPacket, int)> = Seq::empty();
    while left > 0
        invariant
            left <= n,
            list_batches(n as int) == sent + list_batches(left as int),
            out@.len() == sent.len(),
            forall|i: int| 0 <= i < out@.len() ==> (#[trigger] out@[i]).0 == sent[i].0 && out@[i].1 as int == sent[i].1,
        decreases left,
    {
        let (p, k): (ListPacket, usize) = if left >= 64 {
            (ListPacket::X64, 64)
        } else if left >= 32 {
            (ListPacket::X32, 32)
        } else if left >= 16 {
            (ListPacket::X16, 16)
        } else if left >= 2 {
            (ListPacket::X08, if left > 8 { 8 } else { left })
        } else {
            (ListPacket::X01, 1)
        };
        proof {
            assert(list_batches(left as int) == seq![(p, k as int)] + list_batches(left - k));
            assert(sent + list_batches(left as int) =~= sent.push((p, k as int)) + list_batches(left - k));
            sent = sent.push((p, k as int));
        }
        out.push((p, k));
        left = left - k;
    }
    assert(list_batches(0) =~= Seq::<(ListPacket, int)>::empty());
    assert(sent =~= list_batches(n as int));
    out
}

/// Total items a sequence of list packets carries.
pub open spec fn batches_total(b: Seq<(ListPacket, int)>) -> int
    decreases b.len(),
{
    if b.len() == 0 {
        0
    } else {
        b[0].1 + batches_total(b.drop_first())
    }
}

/// The list packets carry every item exactly once, none over its
/// capacity and none empty.
pub proof fn law_batches_carry_all(n: int)
    requires
        n >= 0,
    ensures
        batches_total(list_batches(n)) == n,
        forall|i: int| 0 <= i < list_batches(n).len() ==> 1 <= #[trigger] list_batches(n)[i].1 <= list_capacity(list_batches(n)[i].0),
    decreases n,
{
    if n > 0 {
        let k = if n >= 64 { 64 } else if n >= 32 { 32 } else if n >= 16 { 16 } else if n >= 2 { if n > 8 { 8int } else { n } } else { 1 };
        law_batches_carry_all(n - k);
        let b = list_batches(n);
        assert(b.drop_first() =~= list_batches(n - k));
        assert forall|i: int| 0 <= i < b.len() implies 1 <= #[trigger] b[i].1 <= list_capacity(b[i].0) by {
            if i > 0 {
                assert(b[i] == list_batches(n - k)[i - 1]);
            }
        }
    }
}

/// How many of `item_id` the stacks hold, whatever their quality.
pub open spec fn quantity_of(items: Seq<InventoryItem>, item_id: u32) -> int
    decreases items.len(),
{
    if items.len() == 0 {
        0
    } else {
        quantity_of(items.drop_last(), item_id) + if items.last().item_id == item_id {
            items.last().quantity as int
        } else {
            0
        }
    }
}

proof fn lemma_quantity_bound(items: Seq<InventoryItem>, item_id: u32)
    ensures
        -0x8000_0000 * items.len() <= quantity_of(items, item_id) <= 0x7fff_ffff * items.len(),
    decreases items.len(),
{
    if items.len() > 0 {
        lemma_quantity_bound(items.drop_last(), item_id);
    }
}

impl ItemPackage {
    /// How many of `item_id` the package holds over all its stacks.
    pub fn item_quantity(&self, item_id: u32) -> (res: i64)
        requires
            self.items@.len() <= u32::MAX,
        ensures
            res == quantity_of(self.items@, item_id),
    {
        let ghost its = self.items@;
        let mut total: i64 = 0;
        let mut k: usize = 0;
        assert(its.take(0) =~= Seq::<InventoryItem>::empty());
        while k < self.items.len()
            invariant
                k <= its.len(),
                its == self.items@,
                its.len() <= u32::MAX,
                total == quantity_of(its.take(k as int), item_id),
            decreases its.len() - k,
        {
            assert(its.take(k + 1).drop_last() =~= its.take(k as int));
            proof {
                lemma_quantity_bound(its.take(k + 1), item_id);
                assert(-0x8000_0000 * (k + 1) >= -0x8000_0000 * 0x1_0000_0000) by (nonlinear_arith)
                    requires k + 1 <= 0x1_0000_0000;
                assert(0x7fff_ffff * (k + 1) <= 0x7fff_ffff * 0x1_0000_0000) by (nonlinear_arith)
                    requires k + 1 <= 0x1_0000_0000;
            }
            let it = self.items[k];
            if it.item_id == item_id {
                total = total + it.quantity as i64;
            }
            k = k + 1;
        }
        assert(its.take(its.len() as int) =~= its);
        total
    }

    /// Whether the package holds at least `min` of `item_id` (ask with
    /// `min` 1 for "any").
    pub fn has_item(&self, item_id: u32, min: i64) -> (res: bool)
        requires
            self.items@.len() <= u32::MAX,
        ensures
            res == (quantity_of(self.items@, item_id) >= min),
    {
        self.item_quantity(item_id) >= min
    }
}

/// Adding to a currency balance is plain addition while the sum stays
/// between zero and `i32::MAX`; below zero it stops at zero, above the
/// top it stops at `i32::MAX`.
pub proof fn law_currency_adds_within_bounds(balance: i32, delta: i32)
    ensures
        0 <= balance + delta <= i32::MAX ==> spec_add_currency(balance, delta) == balance + delta,
        balance + delta < 0 ==> spec_add_currency(balance, delta) == 0,
        balance + delta > i32::MAX ==> spec_add_currency(balance, delta) == i32::MAX,
{
}

} // verus!
