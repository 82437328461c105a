//! The retainer bazaar: listing stacks for sale, and the purchase rules.

use vstd::prelude::*;
use crate::inventory::{add_item_result, clamp_currency, AddItemOutcome, ItemPackage};

verus! {

/// A stack a retainer offers for sale.
#[derive(Debug, Clone, Copy, PartialEq, Eq)]
pub struct BazaarListing {
    /// Server-side id of the stack.
    pub server_item_id: u64,
    pub retainer_id: u32,
    /// Character who owns the retainer.
    pub owner_chara_id: u32,
    pub item_id: u32,
    pub quantity: i32,
    /// Quality grade of the items.
    pub quality: u8,
    /// Price of one item.
    pub price_each: i32,
    /// Place of the stack in its retainer's bazaar.
    pub slot: u16,
}

/// What a purchase attempt did.
#[derive(Debug, Clone, Copy, PartialEq, Eq)]
pub enum PurchaseOutcome {
    /// The whole stack changed hands for `gil_spent`.
    Completed { item_id: u32, quantity: i32, quality: u8, gil_spent: i64, owner_chara_id: u32 },
    /// The buyer holds `have` gil of the `need`ed.
    InsufficientGil { have: i32, need: i64 },
    /// No such listing (already sold or withdrawn).
    ListingGone,
    /// The buyer owns the retainer.
    CannotBuyFromSelf,
}

/// Whether listing `i` is the first for stack `server_item_id` of
/// retainer `retainer_id`.
pub open spec fn is_listing(ls: Seq<BazaarListing>, retainer_id: u32, server_item_id: u64, i: int) -> bool {
    &&& 0 <= i < ls.len()
    &&& ls[i].retainer_id == retainer_id
    &&& ls[i].server_item_id == server_item_id
    &&& forall|j: int|
        0 <= j < i ==> !(#[trigger] ls[j].retainer_id == retainer_id && ls[j].server_item_id
            == server_item_id)
}

/// Whether some listing is for that stack of that retainer.
pub open spec fn has_listing(ls: Seq<BazaarListing>, retainer_id: u32, server_item_id: u64) -> bool {
    exists|i: int|
        0 <= i < ls.len() && #[trigger] ls[i].retainer_id == retainer_id && ls[i].server_item_id
            == server_item_id
}

/// Price of a whole listing.
pub open spec fn listing_price(l: BazaarListing) -> int {
    l.quantity * l.price_each
}

/// The outcome of buying listing `l` with `buyer_gil`: checked in this
/// order, a buyer who owns the retainer is refused, then one without
/// enough gil.
pub open spec fn purchase_outcome(l: BazaarListing, buyer_id: u32, buyer_gil: i32) -> PurchaseOutcome {
    if l.owner_chara_id == buyer_id {
        PurchaseOutcome::CannotBuyFromSelf
    } else if (buyer_gil as int) < listing_price(l) {
        PurchaseOutcome::InsufficientGil { have: buyer_gil, need: listing_price(l) as i64 }
    } else {
        PurchaseOutcome::Completed {
            item_id: l.item_id,
            quantity: l.quantity,
            quality: l.quality,
            gil_spent: listing_price(l) as i64,
            owner_chara_id: l.owner_chara_id,
        }
    }
}

proof fn lemma_price_fits(l: BazaarListing)
    ensures
        -0x4000_0000_0000_0000 <= listing_price(l) <= 0x4000_0000_0000_0000,
{
    let q = l.quantity as int;
    let p = l.price_each as int;
    assert(-0x4000_0000_0000_0000 <= q * p <= 0x4000_0000_0000_0000) by (nonlinear_arith)
        requires
            -0x8000_0000 <= q <= 0x7fff_ffff,
            -0x8000_0000 <= p <= 0x7fff_ffff,
    ;
}

/// Buys the stack `server_item_id` from retainer `retainer_id` for a
/// buyer holding `buyer_gil`. A completed purchase takes the listing
/// away; every other outcome leaves the listings as they were.
/// `settle_purchase` then moves the gil and the items.
pub fn purchase_retainer_bazaar_item(
    listings: &mut Vec<BazaarListing>,
    buyer_id: u32,
    retainer_id: u32,
    server_item_id: u64,
    buyer_gil: i32,
) -> (res: PurchaseOutcome)
    ensures
        !has_listing(old(listings)@, retainer_id, server_item_id) ==> res == PurchaseOutcome::ListingGone
            && final(listings)@ == old(listings)@,
        has_listing(old(listings)@, retainer_id, server_item_id) ==> exists|i: int|
            #![trigger is_listing(old(listings)@, retainer_id, server_item_id, i)]
        {
            &&& is_listing(old(listings)@, retainer_id, server_item_id, i)
            &&& res == purchase_outcome(old(listings)@[i], buyer_id, buyer_gil)
            &&& if res is Completed {
                final(listings)@ == old(listings)@.remove(i)
            } else {
                final(listings)@ == old(listings)@
            }
        },
{
    let i = match find_listing(listings, retainer_id, server_item_id) {
        None => {
            return PurchaseOutcome::ListingGone;
        },
        Some(i) => i,
    };
    let l = listings[i];
    proof {
        lemma_price_fits(l);
    }
    assert(is_listing(old(listings)@, retainer_id, server_item_id, i as int));
    if l.owner_chara_id == buyer_id {
        return PurchaseOutcome::CannotBuyFromSelf;
    }
    let need: i64 = l.quantity as i64 * l.price_each as i64;
    if (buyer_gil as i64) < need {
        return PurchaseOutcome::InsufficientGil { have: buyer_gil, need };
    }
    listings.remove(i);
    PurchaseOutcome::Completed {
        item_id: l.item_id,
        quantity: l.quantity,
        quality: l.quality,
        gil_spent: need,
        owner_chara_id: l.owner_chara_id,
    }
}

/// Position of the first listing for that stack of that retainer.
pub fn find_listing(listings: &Vec<BazaarListing>, retainer_id: u32, server_item_id: u64) -> (res:
    Option<usize>)
    ensures
        res is None <==> !has_listing(listings@, retainer_id, server_item_id),
        res matches Some(i) ==> is_listing(listings@, retainer_id, server_item_id, i as int),
{
    let mut i: usize = 0;
    while i < listings.len()
        invariant
            i <= listings@.len(),
            forall|j: int|
                0 <= j < i ==> !(#[trigger] listings@[j].retainer_id == retainer_id
                    && listings@[j].server_item_id == server_item_id),
        decreases listings@.len() - i,
    {
        if listings[i].retainer_id == retainer_id && listings[i].server_item_id == server_item_id {
            return Some(i);
        }
        i = i + 1;
    }
    None
}

/// A completed purchase never costs more gil than the buyer holds; and
/// a stack is sold once: buying the same stack again, once it was the
/// only listing for it, finds it gone.
pub proof fn law_purchase_once(ls: Seq<BazaarListing>, buyer_id: u32, buyer_gil: i32, retainer_id: u32, server_item_id: u64, i: int)
    requires
        is_listing(ls, retainer_id, server_item_id, i),
        forall|j: int| 0 <= j < ls.len() && j != i ==> !(#[trigger] ls[j].retainer_id == retainer_id
            && ls[j].server_item_id == server_item_id),
    ensures
        purchase_outcome(ls[i], buyer_id, buyer_gil) matches PurchaseOutcome::Completed { gil_spent, .. }
            ==> gil_spent <= buyer_gil,
        !has_listing(ls.remove(i), retainer_id, server_item_id),
{
    lemma_price_fits(ls[i]);
    let r = ls.remove(i);
    if has_listing(r, retainer_id, server_item_id) {
        let j = choose|j: int| 0 <= j < r.len() && #[trigger] r[j].retainer_id == retainer_id && r[j].server_item_id == server_item_id;
        let j0 = if j < i { j } else { j + 1 };
        assert(r[j] == ls[j0]);
    }
}

/// Number of stacks one retainer's bazaar holds.
pub const BAZAAR_SLOTS: u16 = 10;

/// Whether a new lot of `item_id` at `quality` and `price_each` merges
/// into listing `l` of retainer `retainer_id`.
pub open spec fn stacks_with(l: BazaarListing, retainer_id: u32, item_id: u32, quality: u8, price_each: i32) -> bool {
    &&& l.retainer_id == retainer_id
    &&& l.item_id == item_id
    &&& l.quality == quality
    &&& l.price_each == price_each
}

/// Whether listing `i` is the first that such a lot merges into.
pub open spec fn is_merge_target(ls: Seq<BazaarListing>, retainer_id: u32, item_id: u32, quality: u8, price_each: i32, i: int) -> bool {
    &&& 0 <= i < ls.len()
    &&& stacks_with(ls[i], retainer_id, item_id, quality, price_each)
    &&& forall|j: int| 0 <= j < i ==> !stacks_with(#[trigger] ls[j], retainer_id, item_id, quality, price_each)
}

/// Whether some listing takes such a lot.
pub open spec fn has_merge_target(ls: Seq<BazaarListing>, retainer_id: u32, item_id: u32, quality: u8, price_each: i32) -> bool {
    exists|i: int| 0 <= i < ls.len() && stacks_with(#[trigger] ls[i], retainer_id, item_id, quality, price_each)
}

/// Whether retainer `retainer_id` has a stack in slot `slot`.
pub open spec fn slot_used(ls: Seq<BazaarListing>, retainer_id: u32, slot: int) -> bool {
    exists|i: int| 0 <= i < ls.len() && #[trigger] ls[i].retainer_id == retainer_id && ls[i].slot == slot
}

/// Whether `slot` is the lowest free slot of that retainer's bazaar.
pub open spec fn is_first_free_slot(ls: Seq<BazaarListing>, retainer_id: u32, slot: int) -> bool {
    &&& 0 <= slot < BAZAAR_SLOTS
    &&& !slot_used(ls, retainer_id, slot)
    &&& forall|t: int| 0 <= t < slot ==> #[trigger] slot_used(ls, retainer_id, t)
}

/// Whether every slot of that retainer's bazaar holds a stack.
pub open spec fn stall_full(ls: Seq<BazaarListing>, retainer_id: u32) -> bool {
    forall|t: int| 0 <= t < BAZAAR_SLOTS ==> #[trigger] slot_used(ls, retainer_id, t)
}

/// `quantity + delta`, held at `i32::MAX`.
pub open spec fn merged_quantity(quantity: i32, delta: i32) -> i32 {
    if quantity + delta > i32::MAX { i32::MAX } else { (quantity + delta) as i32 }
}

/// The stacks of retainer `retainer_id`, in the order they are kept.
pub open spec fn stall_of(ls: Seq<BazaarListing>, retainer_id: u32) -> Seq<BazaarListing>
    decreases ls.len(),
{
    if ls.len() == 0 {
        Seq::empty()
    } else if ls.last().retainer_id == retainer_id {
        stall_of(ls.drop_last(), retainer_id).push(ls.last())
    } else {
        stall_of(ls.drop_last(), retainer_id)
    }
}

/// Lowest free slot of retainer `retainer_id`'s bazaar, if any.
pub fn first_free_bazaar_slot(listings: &Vec<BazaarListing>, retainer_id: u32) -> (res: Option<u16>)
    ensures
        res is None <==> stall_full(listings@, retainer_id),
        res matches Some(s) ==> is_first_free_slot(listings@, retainer_id, s as int),
{
    let mut s: u16 = 0;
    while s < BAZAAR_SLOTS
        invariant
            s <= BAZAAR_SLOTS,
            forall|t: int| 0 <= t < s ==> #[trigger] slot_used(listings@, retainer_id, t),
        decreases BAZAAR_SLOTS - s,
    {
        let mut used = false;
        let mut i: usize = 0;
        while i < listings.len()
            invariant
                i <= listings@.len(),
                used ==> slot_used(listings@, retainer_id, s as int),
                !used ==> forall|j: int| 0 <= j < i ==> !(#[trigger] listings@[j].retainer_id == retainer_id
                    && listings@[j].slot == s),
            decreases listings@.len() - i,
        {
            if listings[i].retainer_id == retainer_id && listings[i].slot == s {
                used = true;
            }
            i = i + 1;
        }
        if !used {
            assert(!slot_used(listings@, retainer_id, s as int));
            return Some(s);
        }
        s = s + 1;
    }
    None
}

/// Position of the first listing a lot of `item_id` at `quality` and
/// `price_each` for retainer `retainer_id` merges into.
pub fn find_merge_target(
    listings: &Vec<BazaarListing>,
    retainer_id: u32,
    item_id: u32,
    quality: u8,
    price_each: i32,
) -> (res: Option<usize>)
    ensures
        res is None <==> !has_merge_target(listings@, retainer_id, item_id, quality, price_each),
        res matches Some(i) ==> is_merge_target(listings@, retainer_id, item_id, quality, price_each, i as int),
{
    let mut i: usize = 0;
    while i < listings.len()
        invariant
            i <= listings@.len(),
            forall|j: int| 0 <= j < i ==> !stacks_with(#[trigger] listings@[j], retainer_id, item_id, quality, price_each),
        decreases listings@.len() - i,
    {
        let l = &listings[i];
        if l.retainer_id == retainer_id && l.item_id == item_id && l.quality == quality
            && l.price_each == price_each {
            return Some(i);
        }
        i = i + 1;
    }
    None
}

/// Lists `delta` items `item_id` of `quality` at `price_each` gil each
/// in retainer `retainer_id`'s bazaar and returns the size of the stack
/// they end up in. A lot with the same item, quality and price as a
/// listed stack merges into it; any other takes the lowest free slot,
/// under the server item id `new_server_item_id`. Item 0, a count
/// under 1, or a full bazaar list nothing and give 0.
pub fn add_retainer_bazaar_item(
    listings: &mut Vec<BazaarListing>,
    retainer_id: u32,
    owner_chara_id: u32,
    item_id: u32,
    delta: i32,
    quality: u8,
    price_each: i32,
    new_server_item_id: u64,
) -> (total: i32)
    ensures
        item_id == 0 || delta <= 0 ==> total == 0 && final(listings)@ == old(listings)@,
        item_id != 0 && delta > 0 && has_merge_target(old(listings)@, retainer_id, item_id, quality, price_each)
            ==> exists|i: int|
            #![trigger is_merge_target(old(listings)@, retainer_id, item_id, quality, price_each, i)]
        {
            &&& is_merge_target(old(listings)@, retainer_id, item_id, quality, price_each, i)
            &&& total == merged_quantity(old(listings)@[i].quantity, delta)
            &&& final(listings)@ == old(listings)@.update(i, BazaarListing { quantity: total, ..old(listings)@[i] })
        },
        item_id != 0 && delta > 0 && !has_merge_target(old(listings)@, retainer_id, item_id, quality, price_each)
            && !stall_full(old(listings)@, retainer_id) ==> exists|s: int|
            #![trigger is_first_free_slot(old(listings)@, retainer_id, s)]
        {
            &&& is_first_free_slot(old(listings)@, retainer_id, s)
            &&& total == delta
            &&& final(listings)@ == old(listings)@.push(BazaarListing {
                server_item_id: new_server_item_id,
                retainer_id,
                owner_chara_id,
                item_id,
                quantity: delta,
                quality,
                price_each,
                slot: s as u16,
            })
        },
        item_id != 0 && delta > 0 && !has_merge_target(old(listings)@, retainer_id, item_id, quality, price_each)
            && stall_full(old(listings)@, retainer_id) ==> total == 0 && final(listings)@ == old(listings)@,
{
    if item_id == 0 || delta <= 0 {
        return 0;
    }
    match find_merge_target(listings, retainer_id, item_id, quality, price_each) {
        Some(i) => {
            let l = listings[i];
            let total: i32 = if l.quantity > i32::MAX - delta {
                i32::MAX
            } else {
                l.quantity + delta
            };
            listings.set(i, BazaarListing { quantity: total, ..l });
            assert(is_merge_target(old(listings)@, retainer_id, item_id, quality, price_each, i as int));
            total
        },
        None => match first_free_bazaar_slot(listings, retainer_id) {
            None => 0,
            Some(s) => {
                listings.push(BazaarListing {
                    server_item_id: new_server_item_id,
                    retainer_id,
                    owner_chara_id,
                    item_id,
                    quantity: delta,
                    quality,
                    price_each,
                    slot: s,
                });
                assert(is_first_free_slot(old(listings)@, retainer_id, s as int));
                delta
            },
        },
    }
}

/// The stacks retainer `retainer_id` has listed.
pub fn list_retainer_bazaar(listings: &Vec<BazaarListing>, retainer_id: u32) -> (res: Vec<BazaarListing>)
    ensures
        res@ == stall_of(listings@, retainer_id),
{
    let mut out: Vec<BazaarListing> = Vec::new();
    let mut k: usize = 0;
    let ghost ls = listings@;
    assert(ls.take(0) =~= Seq::<BazaarListing>::empty());
    while k < listings.len()
        invariant
            k <= ls.len(),
            ls == listings@,
            out@ == stall_of(ls.take(k as int), retainer_id),
        decreases ls.len() - k,
    {
        assert(ls.take(k + 1).drop_last() =~= ls.take(k as int));
        let l = listings[k];
        if l.retainer_id == retainer_id {
            out.push(l);
        }
        k = k + 1;
    }
    assert(ls.take(ls.len() as int) =~= ls);
    out
}

/// Withdraws stack `server_item_id` from retainer `retainer_id`'s
/// bazaar; the result says whether it was listed.
pub fn remove_retainer_bazaar_item(listings: &mut Vec<BazaarListing>, retainer_id: u32, server_item_id: u64) -> (removed: bool)
    ensures
        removed == has_listing(old(listings)@, retainer_id, server_item_id),
        removed ==> exists|i: int|
            #![trigger is_listing(old(listings)@, retainer_id, server_item_id, i)]
            is_listing(old(listings)@, retainer_id, server_item_id, i) && final(listings)@ == old(listings)@.remove(i),
        !removed ==> final(listings)@ == old(listings)@,
{
    match find_listing(listings, retainer_id, server_item_id) {
        None => false,
        Some(i) => {
            listings.remove(i);
            assert(is_listing(old(listings)@, retainer_id, server_item_id, i as int));
            true
        },
    }
}

/// Listing keeps the stacks of other retainers as they were, and a
/// merged lot never opens a second stack: after a lot merges, the
/// stall has as many stacks as before.
pub proof fn law_listing_is_per_retainer(ls: Seq<BazaarListing>, i: int, l: BazaarListing, retainer_id: u32, other: u32)
    requires
        0 <= i < ls.len(),
        ls[i].retainer_id == retainer_id,
        l.retainer_id == retainer_id,
        other != retainer_id,
    ensures
        stall_of(ls.update(i, l), other) == stall_of(ls, other),
        stall_of(ls.push(l), other) == stall_of(ls, other),
        stall_of(ls.update(i, l), retainer_id).len() == stall_of(ls, retainer_id).len(),
        stall_of(ls.push(l), retainer_id).len() == stall_of(ls, retainer_id).len() + 1,
    decreases ls.len(),
{
    assert(ls.push(l).drop_last() =~= ls);
    let u = ls.update(i, l);
    if i == ls.len() - 1 {
        assert(u.drop_last() =~= ls.drop_last());
    } else {
        assert(u.drop_last() =~= ls.drop_last().update(i, l));
        law_listing_is_per_retainer(ls.drop_last(), i, l, retainer_id, other);
    }
}

/// Carries out a purchase: for a completed one, the buyer pays
/// `gil_spent` and the retainer's owner receives it (each balance held
/// between zero and `i32::MAX`), and the stack goes into the buyer's
/// bag `buyer_bag` by the rule of `ItemPackage::add_item`, under the
/// stack id `unique_id`; what that did comes back. A stack of no items
/// adds nothing, and any other outcome moves nothing.
pub fn settle_purchase(
    outcome: PurchaseOutcome,
    buyer_gil: &mut i32,
    owner_gil: &mut i32,
    buyer_bag: &mut ItemPackage,
    unique_id: u64,
) -> (delivered: Option<AddItemOutcome>)
    ensures
        final(buyer_bag).capacity == old(buyer_bag).capacity,
        outcome matches PurchaseOutcome::Completed { item_id, quantity, quality, gil_spent, .. } ==> {
            &&& *final(buyer_gil) == clamp_currency(*old(buyer_gil) - gil_spent)
            &&& *final(owner_gil) == clamp_currency(*old(owner_gil) + gil_spent)
            &&& quantity > 0 ==> delivered is Some && add_item_result(
                old(buyer_bag).items@,
                old(buyer_bag).capacity as int,
                item_id,
                quantity,
                quality,
                unique_id,
                delivered.unwrap(),
                final(buyer_bag).items@,
            )
            &&& quantity <= 0 ==> delivered is None && final(buyer_bag).items@ == old(buyer_bag).items@
        },
        !(outcome is Completed) ==> delivered is None && *final(buyer_gil) == *old(buyer_gil)
            && *final(owner_gil) == *old(owner_gil) && final(buyer_bag).items@ == old(buyer_bag).items@,
{
    match outcome {
        PurchaseOutcome::Completed { item_id, quantity, quality, gil_spent, .. } => {
            let paid: i128 = *buyer_gil as i128 - gil_spent as i128;
            *buyer_gil = if paid < 0 {
                0
            } else if paid > i32::MAX as i128 {
                i32::MAX
            } else {
                paid as i32
            };
            let got: i128 = *owner_gil as i128 + gil_spent as i128;
            *owner_gil = if got < 0 {
                0
            } else if got > i32::MAX as i128 {
                i32::MAX
            } else {
                got as i32
            };
            if quantity > 0 {
                Some(buyer_bag.add_item(item_id, quantity, quality, unique_id))
            } else {
                None
            }
        },
        _ => None,
    }
}

/// Gil changes hands without being made or lost: for a purchase the
/// buyer could afford, what the buyer pays is what the owner receives,
/// as long as the owner's balance stays below `i32::MAX`.
pub proof fn law_settlement_conserves_gil(l: BazaarListing, buyer_id: u32, buyer_gil: i32, owner_gil: i32)
    requires
        0 <= buyer_gil,
        0 <= owner_gil,
        0 <= listing_price(l),
        owner_gil + listing_price(l) <= i32::MAX,
    ensures
        purchase_outcome(l, buyer_id, buyer_gil) matches PurchaseOutcome::Completed { gil_spent, .. } ==> clamp_currency(
            buyer_gil - gil_spent,
        ) + clamp_currency(owner_gil + gil_spent) == buyer_gil + owner_gil,
{
    lemma_price_fits(l);
}

/// A purchase costs the whole stack: quantity times the price of one.
/// A buyer who does not own the retainer and holds at least that much
/// gil completes it and is charged exactly that; one who holds less is
/// told both figures; the owner is always refused.
pub proof fn law_purchase_charges_the_whole_stack(l: BazaarListing, buyer_id: u32, buyer_gil: i32)
    ensures
        l.owner_chara_id == buyer_id ==> purchase_outcome(l, buyer_id, buyer_gil) == PurchaseOutcome::CannotBuyFromSelf,
        l.owner_chara_id != buyer_id && buyer_gil >= l.quantity * l.price_each ==> purchase_outcome(
            l,
            buyer_id,
            buyer_gil,
        ) == (PurchaseOutcome::Completed {
            item_id: l.item_id,
            quantity: l.quantity,
            quality: l.quality,
            gil_spent: (l.quantity * l.price_each) as i64,
            owner_chara_id: l.owner_chara_id,
        }),
        l.owner_chara_id != buyer_id && buyer_gil < l.quantity * l.price_each ==> purchase_outcome(
            l,
            buyer_id,
            buyer_gil,
        ) == (PurchaseOutcome::InsufficientGil { have: buyer_gil, need: (l.quantity * l.price_each) as i64 }),
{
}

} // verus!
