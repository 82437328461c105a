use map_server::hotbar::{
    commands_learned, equip_learned_command, equip_learned_commands, equip_level_up_commands,
    first_free_slot, job_of_class, masked_command, wire_slot, CommandUnlock, HotbarEntry,
    HOTBAR_SLOTS, JOBID_PLD,
};

const GLA: u8 = 3;
const PGL: u8 = 2;

fn gla_catalog() -> Vec<CommandUnlock> {
    vec![
        CommandUnlock { command_id: 27158, class_id: GLA, level: 4, recast_secs: 60 },
        CommandUnlock { command_id: 27142, class_id: GLA, level: 2, recast_secs: 120 },
        CommandUnlock { command_id: 27100, class_id: PGL, level: 2, recast_secs: 30 },
    ]
}

#[test]
fn level_up_equips_learned_command_into_next_free_slot() {
    let mut bar = vec![HotbarEntry { hotbar_slot: 0, command_id: 27150 | 0xA0F0_0000, recast_time: 0 }];
    assert_eq!(first_free_slot(&bar), Some(1));
    assert_eq!(equip_learned_command(&mut bar, 27142, 1_000_120), Some(1));
    let e = bar.iter().find(|e| e.hotbar_slot == 1).expect("slot 1");
    assert_eq!(e.command_id, 27142 | 0xA0F0_0000);
    assert_eq!(e.recast_time, 1_000_120);
    assert_eq!(wire_slot(1), 33);
}

#[test]
fn full_hotbar_skips_equip() {
    let mut bar: Vec<HotbarEntry> = (0..HOTBAR_SLOTS)
        .map(|s| HotbarEntry { hotbar_slot: s, command_id: 27150 | 0xA0F0_0000, recast_time: 0 })
        .collect();
    assert_eq!(first_free_slot(&bar), None);
    assert_eq!(equip_learned_command(&mut bar, 27142, 0), None);
    assert_eq!(bar.len(), HOTBAR_SLOTS as usize);
}

#[test]
fn multi_level_gain_equips_into_distinct_slots() {
    let mut bar = Vec::new();
    assert_eq!(equip_learned_command(&mut bar, 27142, 0), Some(0));
    assert_eq!(equip_learned_command(&mut bar, 27158, 0), Some(1));
    assert_eq!(
        bar.iter().filter(|e| matches!(e.command_id & 0xFFFF, 27142 | 27158)).count(),
        2
    );
    assert_eq!(masked_command(27158), 0xA0F0_6A16);
}

#[test]
fn first_free_slot_fills_gaps_first() {
    let bar = vec![
        HotbarEntry { hotbar_slot: 0, command_id: 1, recast_time: 0 },
        HotbarEntry { hotbar_slot: 2, command_id: 2, recast_time: 0 },
    ];
    assert_eq!(first_free_slot(&bar), Some(1));
}

#[test]
fn apply_add_exp_level_up_auto_equips_unlocked_command_into_hotbar() {
    let catalog = gla_catalog();
    let learned = commands_learned(&catalog, GLA, 1, 2);
    assert_eq!(learned.len(), 1);
    assert_eq!(learned[0].command_id, 27142, "level-2 unlock is rampart");
    let mut bar = vec![HotbarEntry { hotbar_slot: 0, command_id: 27150 | 0xA0F0_0000, recast_time: 0 }];
    let mut job_bar: Vec<HotbarEntry> = Vec::new();
    let now: u32 = 1_000_000;
    let (slots, job_slots) = equip_level_up_commands(&mut bar, &mut job_bar, GLA, &learned, now);
    // (1) Class bar: the next free slot, recast started.
    assert_eq!(slots, vec![Some(1)]);
    let e = bar.iter().find(|e| e.hotbar_slot == 1).expect("slot 1");
    assert_eq!(e.command_id, 0xA0F0_0000 | 27142);
    assert!(e.recast_time >= now + 100, "new skill starts on cooldown");
    // (1b) Job mirror: PLD (16), first free slot = 0.
    assert_eq!(job_of_class(GLA), Some(JOBID_PLD));
    assert_eq!(JOBID_PLD, 16);
    assert_eq!(job_slots, vec![Some(0)]);
    let j = job_bar.iter().find(|e| e.hotbar_slot == 0).expect("job mirror row should exist for PLD");
    assert_eq!(j.command_id & 0xFFFF, 27142);
    // (2) Wire slot 32 + 1.
    assert_eq!(wire_slot(1), 33);
}

#[test]
fn apply_add_exp_level_up_full_hotbar_skips_equip_keeps_learn_message() {
    let catalog = gla_catalog();
    let learned = commands_learned(&catalog, GLA, 1, 2);
    assert_eq!(learned.len(), 1, "the command is still learned");
    let mut bar: Vec<HotbarEntry> = (0..HOTBAR_SLOTS)
        .map(|s| HotbarEntry { hotbar_slot: s, command_id: 27150 | 0xA0F0_0000, recast_time: 0 })
        .collect();
    let slots = equip_learned_commands(&mut bar, &learned, 0);
    assert_eq!(slots, vec![None]);
    assert_eq!(bar.len(), HOTBAR_SLOTS as usize, "full bar must skip the class-bar equip");
    assert!(!bar.iter().any(|e| e.command_id & 0xFFFF == 27142));
}

#[test]
fn apply_add_exp_multi_level_gain_equips_each_level_into_distinct_slots() {
    let catalog = gla_catalog();
    let learned = commands_learned(&catalog, GLA, 1, 4);
    let ids: Vec<u32> = learned.iter().map(|c| c.command_id).collect();
    assert_eq!(ids, vec![27142, 27158], "oldest level first");
    let mut bar: Vec<HotbarEntry> = Vec::new();
    let mut job_bar: Vec<HotbarEntry> = Vec::new();
    let (slots, job_slots) = equip_level_up_commands(&mut bar, &mut job_bar, GLA, &learned, 500);
    assert_eq!(slots, vec![Some(0), Some(1)]);
    assert_eq!(bar[0].command_id & 0xFFFF, 27142, "rampart (lvl 2) equips first, slot 0");
    assert_eq!(bar[1].command_id & 0xFFFF, 27158, "phalanx (lvl 4) equips second, slot 1");
    assert_eq!(bar[1].recast_time, 560);
    // Job mirror got both, also in distinct slots.
    assert_eq!(job_slots, vec![Some(0), Some(1)]);
    assert_eq!(job_bar[0].hotbar_slot, 0);
    assert_eq!(job_bar[0].command_id & 0xFFFF, 27142);
    assert_eq!(job_bar[1].hotbar_slot, 1);
    assert_eq!(job_bar[1].command_id & 0xFFFF, 27158);
    assert_eq!(
        bar.iter().filter(|e| matches!(e.command_id & 0xFFFF, 27142 | 27158)).count(),
        2,
        "both unlocks in the class bar",
    );
}

#[test]
fn class_without_job_leaves_the_job_bar_alone() {
    let learned = vec![CommandUnlock { command_id: 1, class_id: 29, level: 2, recast_secs: 0 }];
    let mut bar = Vec::new();
    let mut job_bar = Vec::new();
    let (slots, job_slots) = equip_level_up_commands(&mut bar, &mut job_bar, 29, &learned, 0);
    assert_eq!(slots, vec![Some(0)]);
    assert!(job_slots.is_empty());
    assert!(job_bar.is_empty());
    assert_eq!(job_of_class(PGL), Some(15));
}

#[test]
fn commands_learned_is_empty_without_a_level_gain() {
    let catalog = gla_catalog();
    assert!(commands_learned(&catalog, GLA, 4, 4).is_empty());
    assert!(commands_learned(&catalog, GLA, 5, 3).is_empty());
    assert_eq!(commands_learned(&catalog, PGL, 1, 50).len(), 1);
    assert_eq!(commands_learned(&catalog, GLA, 2, 3).len(), 0, "level 2 already reached");
}

#[test]
fn recast_start_holds_at_the_last_second() {
    let learned = vec![CommandUnlock { command_id: 1, class_id: GLA, level: 2, recast_secs: 100 }];
    let mut bar = Vec::new();
    equip_learned_commands(&mut bar, &learned, u32::MAX - 10);
    assert_eq!(bar[0].recast_time, u32::MAX);
}
