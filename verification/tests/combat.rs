use map_server::combat::{Engagement, HateContainer, INVALID_ACTORID};
use map_server::combat::{rental_tick, MountState, MAIN_STATE_MOUNTED};
use map_server::combat::{
    command_press, death_tick, revive, take_damage, tp_after_command, tp_after_swing,
    CommandPress, DeathTick, Vitals, MAIN_STATE_ACTIVE, MAIN_STATE_DEAD, MAIN_STATE_PASSIVE,
    MAX_TP,
};

#[test]
fn hotbar_press_gates_in_order() {
    // Passive mode: 32503.
    assert_eq!(
        command_press(MAIN_STATE_PASSIVE, 0, 100, true, 1000, 1000),
        CommandPress::Refused { text_id: 32503 }
    );
    // Active, ready: executes.
    assert_eq!(command_press(MAIN_STATE_ACTIVE, 0, 100, true, 1000, 1000), CommandPress::Execute);
    // Inside the recast window: 32535.
    assert_eq!(
        command_press(MAIN_STATE_ACTIVE, 110, 100, true, 1000, 1000),
        CommandPress::Refused { text_id: 32535 }
    );
    // Out of range: 32539.
    assert_eq!(
        command_press(MAIN_STATE_ACTIVE, 0, 100, false, 1000, 1000),
        CommandPress::Refused { text_id: 32539 }
    );
    assert_eq!(command_press(MAIN_STATE_ACTIVE, 0, 100, true, 999, 1000), CommandPress::NotEnoughTp);
}

#[test]
fn swings_bank_tp_by_weapon_delay() {
    assert_eq!(tp_after_swing(0, 2500), 250);
    assert_eq!(tp_after_swing(250, 2500), 500);
    assert_eq!(tp_after_swing(2900, 2500), MAX_TP);
    assert_eq!(tp_after_command(1000, 1000), 0);
    assert_eq!(tp_after_command(1200, 1000), 200);
}

#[test]
fn battle_npc_respawns_after_default_delay() {
    assert_eq!(death_tick(true, false, 1_000, 1_100), DeathTick::Respawn);
    assert_eq!(death_tick(true, false, 1_000, 1_005), DeathTick::StayDown);
    assert_eq!(death_tick(false, false, 0, 9_000_000), DeathTick::StayDown);
    assert_eq!(death_tick(false, true, 0, 0), DeathTick::Revive);
}

#[test]
fn revive_restores_hp_and_flips_state_back_to_passive() {
    let dead = Vitals { hp: 0, max_hp: 1000, mp: 0, max_mp: 400, main_state: MAIN_STATE_DEAD };
    let v = revive(dead);
    assert_eq!(v.hp, 1000);
    assert_eq!(v.mp, 400);
    assert_eq!(v.main_state, MAIN_STATE_PASSIVE);
}

#[test]
fn lethal_damage_flips_defender_to_dead() {
    let v = Vitals { hp: 1, max_hp: 1000, mp: 0, max_mp: 0, main_state: MAIN_STATE_ACTIVE };
    let hit = take_damage(v, 90);
    assert_eq!(hit.hp, 0);
    assert_eq!(hit.main_state, MAIN_STATE_DEAD);
    let graze = take_damage(Vitals { hp: 500, ..v }, 90);
    assert_eq!(graze.hp, 410);
    assert_eq!(graze.main_state, MAIN_STATE_ACTIVE);
}

#[test]
fn rental_expiry_tick_dismounts() {
    let now: u32 = 1_700_000_000;
    let m = MountState { mount_state: 1, rental_expire_time: now - 10, rental_min_left: 1, main_state: MAIN_STATE_MOUNTED };
    let after = rental_tick(m, now);
    assert_eq!(after.rental_expire_time, 0);
    assert_eq!(after.rental_min_left, 0);
    assert_eq!(after.mount_state, 0);
    assert_eq!(after.main_state, MAIN_STATE_PASSIVE);
}

#[test]
fn rental_tick_keeps_a_running_rental_and_an_owned_mount() {
    let now: u32 = 1_700_000_000;
    let renting = MountState { mount_state: 1, rental_expire_time: now + 60, rental_min_left: 1, main_state: MAIN_STATE_MOUNTED };
    assert_eq!(rental_tick(renting, now), renting);
    let owned = MountState { mount_state: 1, rental_expire_time: 0, rental_min_left: 0, main_state: MAIN_STATE_MOUNTED };
    assert_eq!(rental_tick(owned, now), owned);
    let due_now = MountState { rental_expire_time: now, ..renting };
    assert_eq!(rental_tick(due_now, now).mount_state, 0);
}

fn engagement(main_state: u16) -> Engagement {
    Engagement { main_state, current_target: INVALID_ACTORID, engaged_target: None, hate: HateContainer::new() }
}

#[test]
fn set_target_auto_attack_gated_on_active_mode() {
    let mut e = engagement(MAIN_STATE_PASSIVE);
    e.set_target(2, true);
    assert_eq!(e.engaged_target, None, "sheathed 0x00CD must not engage the swing loop");
    assert_eq!(e.current_target, 2, "soft target survives the sheathed press");
    e.main_state = MAIN_STATE_ACTIVE;
    e.set_target(2, true);
    assert_eq!(e.engaged_target, Some(2), "active-mode 0x00CD must engage");
}

#[test]
fn script_actor_engage_bypasses_stance_gate() {
    let mut e = engagement(MAIN_STATE_PASSIVE);
    e.script_engage(2);
    assert_eq!(e.engaged_target, Some(2));
    assert_eq!(e.main_state, MAIN_STATE_PASSIVE);
}

#[test]
fn sheathe_mid_combat_flushes_battle_states_and_stops_auto_attack() {
    let mut e = engagement(MAIN_STATE_ACTIVE);
    e.set_target(2, true);
    e.hate.add(2, 100);
    assert!(e.sheathe(), "engaged sheathe consumes the stance change");
    assert_eq!(e.engaged_target, None);
    assert_eq!(e.main_state, MAIN_STATE_PASSIVE);
    assert_eq!(e.current_target, INVALID_ACTORID);
    assert!(e.hate.entries.is_empty());
    assert!(!e.sheathe(), "a second sheathe has nothing to flush");
    e.set_target(2, true);
    assert_eq!(e.engaged_target, None, "no swing re-arms after the sheathe");
}

#[test]
fn hate_add_event_updates_attacker_hate_container() {
    let mut hate = HateContainer::new();
    assert_eq!(hate.most_hated(), None);
    hate.add(10, 250);
    assert_eq!(hate.most_hated(), Some(10));
    assert!(hate.get(10).unwrap() >= 250);
}

#[test]
fn most_hated_follows_cumulative_enmity_and_keeps_the_first_of_equals() {
    let mut hate = HateContainer::new();
    hate.add(10, 100);
    hate.add(11, 100);
    assert_eq!(hate.most_hated(), Some(10), "ties go to the first");
    hate.add(11, 1);
    assert_eq!(hate.most_hated(), Some(11));
    assert_eq!(hate.get(11), Some(101));
    assert_eq!(hate.entries.len(), 2);
    hate.add(10, u32::MAX);
    assert_eq!(hate.get(10), Some(u32::MAX));
    assert_eq!(hate.get(12), None);
    hate.clear();
    assert_eq!(hate.most_hated(), None);
}
