use map_server::bazaar::{
    add_retainer_bazaar_item, find_listing, first_free_bazaar_slot, list_retainer_bazaar,
    purchase_retainer_bazaar_item, remove_retainer_bazaar_item, settle_purchase, BazaarListing,
    PurchaseOutcome, BAZAAR_SLOTS,
};
use map_server::inventory::{AddItemOutcome, ItemPackage, CAP_NORMAL};

fn listing(owner: u32, retainer: u32, sid: u64, item: u32, qty: i32, price: i32) -> BazaarListing {
    BazaarListing {
        server_item_id: sid,
        retainer_id: retainer,
        owner_chara_id: owner,
        item_id: item,
        quantity: qty,
        quality: 0,
        price_each: price,
        slot: 0,
    }
}

#[test]
fn purchase_retainer_bazaar_item_happy_path() {
    let mut ls = vec![listing(401, 1001, 77, 10_001_006, 5, 50)];
    let mut buyer_gil: i32 = 1000;
    let mut owner_gil: i32 = 0;
    let mut buyer_bag = ItemPackage::new(CAP_NORMAL);
    let out = purchase_retainer_bazaar_item(&mut ls, 402, 1001, 77, buyer_gil);
    match out {
        PurchaseOutcome::Completed { item_id, quantity, gil_spent, owner_chara_id, .. } => {
            assert_eq!(item_id, 10_001_006);
            assert_eq!(quantity, 5);
            assert_eq!(gil_spent, 250, "5 * 50 gil per unit");
            assert_eq!(owner_chara_id, 401);
        }
        other => panic!("expected Completed, got {other:?}"),
    }
    let delivered = settle_purchase(out, &mut buyer_gil, &mut owner_gil, &mut buyer_bag, 9001);

    // Listing removed.
    assert!(ls.is_empty());
    // Buyer has the item stack.
    assert!(matches!(delivered, Some(AddItemOutcome::NewStack { slot: 0 })));
    assert_eq!(buyer_bag.item_quantity(10_001_006), 5);
    // Buyer gil = 1000 - 250 = 750; owner gil = 250.
    assert_eq!(buyer_gil, 750);
    assert_eq!(owner_gil, 250);
}

#[test]
fn purchase_retainer_bazaar_item_rejects_insufficient_gil() {
    let mut ls = vec![listing(403, 1002, 78, 10_001_001, 5, 50)];
    let mut buyer_gil: i32 = 100;
    let mut owner_gil: i32 = 0;
    let mut buyer_bag = ItemPackage::new(CAP_NORMAL);
    let out = purchase_retainer_bazaar_item(&mut ls, 404, 1002, 78, buyer_gil);
    assert_eq!(out, PurchaseOutcome::InsufficientGil { have: 100, need: 250 });
    assert_eq!(settle_purchase(out, &mut buyer_gil, &mut owner_gil, &mut buyer_bag, 1), None);
    assert_eq!(ls.len(), 1, "listing untouched");
    assert_eq!(buyer_gil, 100, "buyer unchanged");
    assert_eq!(owner_gil, 0, "owner unchanged");
    assert!(buyer_bag.items.is_empty());
}

#[test]
fn settled_purchase_merges_into_a_held_stack() {
    let mut ls = vec![listing(1, 10, 5, 10_001_006, 2, 7)];
    let mut buyer_gil: i32 = 20;
    let mut owner_gil: i32 = i32::MAX - 3;
    let mut bag = ItemPackage::new(CAP_NORMAL);
    bag.add_item(10_001_006, 3, 0, 1);
    let out = purchase_retainer_bazaar_item(&mut ls, 9, 10, 5, buyer_gil);
    let delivered = settle_purchase(out, &mut buyer_gil, &mut owner_gil, &mut bag, 2);
    assert!(matches!(delivered, Some(AddItemOutcome::Merged { index: 0, total: 5 })));
    assert_eq!(buyer_gil, 6);
    assert_eq!(owner_gil, i32::MAX, "held at i32::MAX");
}

#[test]
fn purchase_retainer_bazaar_item_is_idempotent_on_missing_listing() {
    let mut ls = vec![listing(405, 1003, 79, 10_001_001, 3, 20)];
    assert!(matches!(
        purchase_retainer_bazaar_item(&mut ls, 406, 1003, 79, 500),
        PurchaseOutcome::Completed { .. }
    ));
    assert_eq!(
        purchase_retainer_bazaar_item(&mut ls, 406, 1003, 79, 500),
        PurchaseOutcome::ListingGone
    );
}

#[test]
fn purchase_retainer_bazaar_item_rejects_self_purchase() {
    let mut ls = vec![listing(407, 1001, 80, 10_001_001, 1, 10)];
    assert_eq!(
        purchase_retainer_bazaar_item(&mut ls, 407, 1001, 80, 0),
        PurchaseOutcome::CannotBuyFromSelf
    );
    assert_eq!(ls.len(), 1);
}

#[test]
fn purchase_picks_the_listing_of_the_named_retainer() {
    let mut ls = vec![
        listing(1, 10, 5, 100, 1, 1),
        listing(2, 20, 5, 200, 2, 2),
        listing(3, 20, 6, 300, 3, 3),
    ];
    assert_eq!(find_listing(&ls, 20, 5), Some(1));
    let out = purchase_retainer_bazaar_item(&mut ls, 9, 20, 5, 10);
    assert_eq!(
        out,
        PurchaseOutcome::Completed { item_id: 200, quantity: 2, quality: 0, gil_spent: 4, owner_chara_id: 2 }
    );
    assert_eq!(ls.len(), 2);
    assert_eq!(ls[1].server_item_id, 6);
}

#[test]
fn retainer_bazaar_add_list_remove_round_trip() {
    let mut ls: Vec<BazaarListing> = Vec::new();
    assert!(list_retainer_bazaar(&ls, 1001).is_empty());

    let total_a = add_retainer_bazaar_item(&mut ls, 1001, 77, 5100, 5, 0, 120, 1);
    assert_eq!(total_a, 5, "fresh insert returns seed quantity");
    let rows = list_retainer_bazaar(&ls, 1001);
    assert_eq!(rows.len(), 1);
    assert_eq!(rows[0].item_id, 5100);
    assert_eq!(rows[0].quantity, 5);
    assert_eq!(rows[0].price_each, 120);
    assert_eq!(rows[0].slot, 0);

    let total_b = add_retainer_bazaar_item(&mut ls, 1001, 77, 5100, 3, 0, 120, 2);
    assert_eq!(total_b, 8, "same (item, quality, price) should merge stacks");
    let rows = list_retainer_bazaar(&ls, 1001);
    assert_eq!(rows.len(), 1, "merge must not spawn a new slot");
    assert_eq!(rows[0].quantity, 8);

    add_retainer_bazaar_item(&mut ls, 1001, 77, 5100, 2, 0, 150, 3);
    add_retainer_bazaar_item(&mut ls, 1001, 77, 5100, 1, 1, 120, 4);
    let rows = list_retainer_bazaar(&ls, 1001);
    assert_eq!(rows.len(), 3);
    assert_eq!(rows[0].slot, 0);
    assert_eq!(rows[1].slot, 1);
    assert_eq!(rows[2].slot, 2);

    add_retainer_bazaar_item(&mut ls, 1002, 78, 5100, 1, 0, 120, 5);
    assert_eq!(list_retainer_bazaar(&ls, 1002).len(), 1, "retainer 1002 sees only its own listing");
    assert_eq!(list_retainer_bazaar(&ls, 1001).len(), 3, "adding to retainer 1002 must not touch retainer 1001");

    let target_sid = rows[0].server_item_id;
    assert!(remove_retainer_bazaar_item(&mut ls, 1001, target_sid));
    assert!(!remove_retainer_bazaar_item(&mut ls, 1001, target_sid), "second remove on the same id should be a no-op");
    let after = list_retainer_bazaar(&ls, 1001);
    assert_eq!(after.len(), 2, "one removal should leave two rows");
    assert!(!after.iter().any(|r| r.server_item_id == target_sid), "removed row must be gone");

    assert_eq!(add_retainer_bazaar_item(&mut ls, 1001, 77, 0, 1, 0, 10, 6), 0, "item 0 is a no-op");
    assert_eq!(add_retainer_bazaar_item(&mut ls, 1001, 77, 5100, 0, 0, 10, 7), 0, "delta 0 is a no-op");
    assert_eq!(list_retainer_bazaar(&ls, 1001).len(), 2);
}

#[test]
fn bazaar_reuses_the_lowest_freed_slot() {
    let mut ls: Vec<BazaarListing> = Vec::new();
    add_retainer_bazaar_item(&mut ls, 1001, 77, 5100, 1, 0, 10, 1);
    add_retainer_bazaar_item(&mut ls, 1001, 77, 5101, 1, 0, 10, 2);
    add_retainer_bazaar_item(&mut ls, 1001, 77, 5102, 1, 0, 10, 3);
    assert!(remove_retainer_bazaar_item(&mut ls, 1001, 2));
    assert_eq!(first_free_bazaar_slot(&ls, 1001), Some(1));
    add_retainer_bazaar_item(&mut ls, 1001, 77, 5103, 4, 0, 10, 4);
    let rows = list_retainer_bazaar(&ls, 1001);
    assert_eq!(rows[2].item_id, 5103);
    assert_eq!(rows[2].slot, 1);
}

#[test]
fn full_bazaar_refuses_a_new_stack_but_still_merges() {
    let mut ls: Vec<BazaarListing> = Vec::new();
    for k in 0..BAZAAR_SLOTS as u32 {
        assert_eq!(add_retainer_bazaar_item(&mut ls, 1001, 77, 6000 + k, 1, 0, 10, k as u64), 1);
    }
    assert_eq!(first_free_bazaar_slot(&ls, 1001), None);
    assert_eq!(add_retainer_bazaar_item(&mut ls, 1001, 77, 7000, 1, 0, 10, 99), 0);
    assert_eq!(ls.len(), BAZAAR_SLOTS as usize);
    assert_eq!(add_retainer_bazaar_item(&mut ls, 1001, 77, 6000, 2, 0, 10, 100), 3);
    assert_eq!(first_free_bazaar_slot(&ls, 1002), Some(0));
}

#[test]
fn merged_stack_holds_at_i32_max() {
    let mut ls: Vec<BazaarListing> = Vec::new();
    add_retainer_bazaar_item(&mut ls, 1001, 77, 5100, i32::MAX - 1, 0, 10, 1);
    assert_eq!(add_retainer_bazaar_item(&mut ls, 1001, 77, 5100, 5, 0, 10, 2), i32::MAX);
}
