use map_server::retainer::{retainer_actor_id, RetainerRoster};

#[test]
fn retainer_hire_list_dismiss_round_trip() {
    let mut roster = RetainerRoster::new();
    assert_eq!(roster.len(), 0, "new character should have no retainers");
    assert_eq!(roster.nth(1), None, "nth(1) on empty set should be None");

    assert!(roster.hire(1001), "first hire should report fresh=true");
    assert!(!roster.hire(1001), "re-hiring same retainer should be idempotent");
    assert_eq!(roster.len(), 1);
    assert_eq!(roster.hired[0].retainer_id, 1001);
    assert_eq!(roster.name_of(1001, "Wienta").as_deref(), Some("Wienta"));

    assert_eq!(roster.nth(1), Some(1001));
    assert_eq!(roster.nth(2), None);

    assert!(roster.hire(1003));
    assert_eq!(roster.len(), 2);
    assert_eq!(roster.hired[0].retainer_id, 1001);
    assert_eq!(roster.hired[1].retainer_id, 1003);

    assert!(roster.dismiss(1001));
    assert!(!roster.dismiss(1001), "second dismiss of same id should be a no-op");
    assert_eq!(roster.nth(1), Some(1003));
}

#[test]
fn rename_retainer_persists_and_load_returns_custom_name() {
    let mut roster = RetainerRoster::new();
    roster.hire(1001);
    assert_eq!(roster.name_of(1001, "Wienta").as_deref(), Some("Wienta"));
    assert!(roster.rename(1001, "Nicknaming".to_string()));
    assert_eq!(roster.name_of(1001, "Wienta").as_deref(), Some("Nicknaming"));
}

#[test]
fn rename_retainer_no_ops_when_not_hired() {
    let mut roster = RetainerRoster::new();
    assert!(!roster.rename(1001, "Bob".to_string()), "no ownership row, no update");
    assert_eq!(roster.len(), 0);
    assert_eq!(roster.name_of(1001, "Wienta"), None);
}

#[test]
fn rename_retainer_is_per_character() {
    let mut alice = RetainerRoster::new();
    let mut bob = RetainerRoster::new();
    alice.hire(1001);
    bob.hire(1001);
    alice.rename(1001, "AliceRetainer".to_string());
    assert_eq!(bob.name_of(1001, "Wienta").as_deref(), Some("Wienta"));
    bob.rename(1001, "BobRetainer".to_string());
    assert_eq!(alice.name_of(1001, "Wienta").as_deref(), Some("AliceRetainer"));
    assert_eq!(bob.name_of(1001, "Wienta").as_deref(), Some("BobRetainer"));
}

#[test]
fn retainer_actor_id_follows_kind_zone_local_encoding() {
    assert_eq!(retainer_actor_id(200, 7), 0x4644_0007);
    assert_eq!(retainer_actor_id(0, 0), 0x4004_0000);
    assert_eq!(retainer_actor_id(0x3FF, 0xFFFF_FFFF), 0x4FFF_FFFF);
    assert_ne!(retainer_actor_id(200, 7), retainer_actor_id(200, 8));
}

#[test]
fn dismissed_retainer_can_be_hired_again_at_the_end() {
    let mut roster = RetainerRoster::new();
    roster.hire(1001);
    roster.hire(1002);
    roster.dismiss(1001);
    assert!(roster.hire(1001));
    assert_eq!(roster.nth(1), Some(1002));
    assert_eq!(roster.nth(2), Some(1001));
    assert_eq!(roster.nth(0), None);
}
