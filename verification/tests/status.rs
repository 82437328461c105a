use map_server::status::{
    StatusContainer, StatusEffect, StatusOverwrite, LOSE_ON_DEATH, LOSE_ON_LOGOUT,
    LOSE_ON_ZONING, MAX_STATUS_EFFECTS,
};

fn effect(id: u32, duration: u32, flags: u32, overwrite: StatusOverwrite) -> StatusEffect {
    StatusEffect { id, source_actor_id: 0, duration, tier: 0, flags, overwrite }
}

#[test]
fn apply_try_status_installs_effect_on_target() {
    let mut c = StatusContainer::new();
    assert!(c.add(effect(253_000, 30, 0, StatusOverwrite::Never)));
    assert!(c.get(253_000).is_some());
    assert!(c.has(253_000));
}

#[test]
fn apply_try_status_respects_overwrite_rule() {
    let mut c = StatusContainer::new();
    assert!(c.add(effect(253_001, 30, 0, StatusOverwrite::Never)));
    assert!(!c.add(effect(253_001, 60, 0, StatusOverwrite::Never)));
    assert_eq!(c.get(253_001).unwrap().duration, 30, "first duration kept");
    assert!(c.add(effect(253_001, 90, 0, StatusOverwrite::Always)));
    assert_eq!(c.get(253_001).unwrap().duration, 90);
    assert_eq!(c.effects.len(), 1);
}

#[test]
fn status_container_refuses_past_the_maximum() {
    let mut c = StatusContainer::new();
    for i in 0..MAX_STATUS_EFFECTS as u32 {
        assert!(c.add(effect(i, 1, 0, StatusOverwrite::Never)));
    }
    assert!(!c.add(effect(999, 1, 0, StatusOverwrite::Never)));
    assert!(c.remove(0));
    assert!(!c.remove(0));
    assert!(c.add(effect(999, 1, 0, StatusOverwrite::Never)));
}

#[test]
fn die_purges_lose_on_death_status_effects() {
    let mut c = StatusContainer::new();
    c.add(effect(1, 30, LOSE_ON_DEATH, StatusOverwrite::Never)); // poison
    c.add(effect(2, 30, 0, StatusOverwrite::Never)); // rampart
    c.add(effect(3, 30, LOSE_ON_LOGOUT | LOSE_ON_ZONING, StatusOverwrite::Never));
    assert_eq!(c.purge(LOSE_ON_DEATH), vec![1]);
    assert!(!c.has(1));
    assert!(c.has(2));
    assert!(c.has(3));
    assert_eq!(c.purge(LOSE_ON_ZONING), vec![3]);
    assert_eq!(c.purge(LOSE_ON_LOGOUT), Vec::<u32>::new());
    assert_eq!(c.effects.len(), 1);
}
