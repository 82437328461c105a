use map_server::grand_company::GC_MAELSTROM;
use map_server::leve::{
    accept_regional_leve, advance_battlecraft_leves, advance_fieldcraft_leves,
    hand_in_regional_leve, HandInOutcome, RegionalLeve, RegionalLeveCatalog, ACCEPTED_FLAG_BIT,
    COMPLETED_FLAG_BIT,
};
use map_server::quest::{quest_actor_id, Quest, QuestJournal};

fn leve(id: u32, plate_id: u32, target: u32, objective: u16, gil: i32, name: &str) -> RegionalLeve {
    RegionalLeve {
        id,
        plate_id,
        script_name: name.to_string(),
        objective_target: [target, target, target, target],
        objective_quantity: [objective, objective + 2, objective + 4, objective + 6],
        gil_reward: [gil, gil * 2, gil * 3, gil * 4],
        item_reward: [0; 4],
        item_reward_quantity: [0; 4],
    }
}

fn catalog() -> RegionalLeveCatalog {
    RegionalLeveCatalog {
        leves: vec![
            leve(130_001, 0, 10_001_001, 5, 200, "fcl130001"),
            leve(130_002, 0, 10_008_007, 5, 200, "fcl130002"),
            leve(130_003, 0, 10_001_006, 5, 200, "fcl130003"),
            leve(140_001, 0x30C3, 5_000_001, 3, 300, "bcl140001"),
            leve(140_002, 0x30C4, 5_000_002, 3, 300, "bcl140002"),
            leve(140_003, 0x30C5, 5_000_091, 3, 300, "bcl140003"),
        ],
    }
}

fn accepted_quest(leve_id: u32, name: &str) -> Quest {
    let mut q = Quest::new(quest_actor_id(leve_id), name);
    q.set_flag(ACCEPTED_FLAG_BIT);
    q.clear_dirty();
    q
}

#[test]
fn regional_leve_catalog_lookups() {
    let c = catalog();
    assert_eq!(c.num_leves(), 6);
    assert_eq!(c.num_fieldcraft(), 3);
    assert_eq!(c.num_battlecraft(), 3);
    assert_eq!(c.fieldcraft_leves_for_item(10_001_006), vec![130_003]);
    assert_eq!(c.fieldcraft_leves_for_item(10_008_007), vec![130_002]);
    assert_eq!(c.battlecraft_leves_for_class(5_000_091), vec![140_003]);
    assert!(c.fieldcraft_leves_for_item(999_999).is_empty());
    assert!(c.battlecraft_leves_for_class(999_999).is_empty());
    assert_eq!(c.leve_for_plate(0x30C3).map(|l| l.id), Some(140_001));
    assert!(c.leve_for_plate(0).is_none());
    assert!(c.get(999_999).is_none());
}

#[test]
fn fieldcraft_leve_progress_ticks_and_completes() {
    let c = catalog();
    let mut j = QuestJournal::new();
    j.add(accepted_quest(130_003, "fcl130003"));
    let done = advance_fieldcraft_leves(&mut j, &c, 10_001_006, 3);
    assert!(done.is_empty());
    assert_eq!(j.get(130_003).unwrap().get_counter(0), 3);
    let done = advance_fieldcraft_leves(&mut j, &c, 10_001_006, 2);
    assert_eq!(done, vec![130_003]);
    let q = j.get(130_003).unwrap();
    assert_eq!(q.get_counter(0), 5, "progress saturates at objective");
    assert!(q.get_flag(COMPLETED_FLAG_BIT));
    assert_ne!(q.flags & (1 << COMPLETED_FLAG_BIT), 0);
}

#[test]
fn fieldcraft_leve_progress_gated_on_accepted_flag() {
    let c = catalog();
    let mut j = QuestJournal::new();
    let mut q = Quest::new(quest_actor_id(130_003), "fcl130003");
    q.clear_dirty();
    j.add(q);
    let done = advance_fieldcraft_leves(&mut j, &c, 10_001_006, 3);
    assert!(done.is_empty());
    assert_eq!(j.get(130_003).unwrap().get_counter(0), 0, "unaccepted leve should not tick");
}

#[test]
fn battlecraft_leve_progress_ticks_on_kill() {
    let c = catalog();
    let mut j = QuestJournal::new();
    j.add(accepted_quest(140_003, "bcl140003"));
    let mut completions = Vec::new();
    for _ in 0..3 {
        completions.extend(advance_battlecraft_leves(&mut j, &c, 5_000_091));
    }
    assert_eq!(completions, vec![140_003], "third kill should complete exactly once");
    let q = j.get(140_003).unwrap();
    assert_eq!(q.get_counter(0), 3);
    assert!(q.get_flag(COMPLETED_FLAG_BIT));
    let completions_4 = advance_battlecraft_leves(&mut j, &c, 5_000_091);
    assert!(completions_4.is_empty(), "post-completion calls must be idempotent");
}

#[test]
fn regional_leve_progress_short_circuits_without_catalog() {
    let empty = RegionalLeveCatalog { leves: Vec::new() };
    let mut j = QuestJournal::new();
    j.add(accepted_quest(130_003, "fcl130003"));
    assert!(advance_fieldcraft_leves(&mut j, &empty, 10_001_006, 5).is_empty());
    assert!(advance_battlecraft_leves(&mut j, &empty, 5_000_091).is_empty());
    assert_eq!(j.get(130_003).unwrap().get_counter(0), 0);
}

fn completed_journal(leve_id: u32, band: u16) -> QuestJournal {
    let mut j = QuestJournal::new();
    let mut q = Quest::new(quest_actor_id(leve_id), "leve");
    q.set_flag(ACCEPTED_FLAG_BIT);
    q.set_flag(COMPLETED_FLAG_BIT);
    q.set_counter(1, band);
    q.set_counter(0, 100);
    q.clear_dirty();
    j.add(q);
    j
}

#[test]
fn hand_in_fieldcraft_leve_grants_gil_and_clears_journal() {
    let c = catalog();
    let mut j = completed_journal(130_001, 0);
    let out = hand_in_regional_leve(&mut j, &c, 130_001, 0);
    assert!(out.applied);
    assert_eq!(out.gil_granted, 200);
    assert_eq!(out.item_granted, None);
    assert_eq!(out.seals_granted, None, "fieldcraft never grants seals");
    assert!(j.get(130_001).is_none());
}

#[test]
fn hand_in_battlecraft_unenlisted_grants_gil_no_seals() {
    let c = catalog();
    let mut j = completed_journal(140_001, 0);
    let out = hand_in_regional_leve(&mut j, &c, 140_001, 0);
    assert!(out.applied);
    assert_eq!(out.gil_granted, 300);
    assert_eq!(out.seals_granted, None);
}

#[test]
fn hand_in_battlecraft_enlisted_grants_gil_and_seals() {
    let c = catalog();
    let mut j = completed_journal(140_001, 0);
    let out = hand_in_regional_leve(&mut j, &c, 140_001, GC_MAELSTROM);
    assert_eq!(
        out,
        HandInOutcome {
            applied: true,
            gil_granted: 300,
            item_granted: None,
            seals_granted: Some((GC_MAELSTROM, 150)),
        }
    );
}

#[test]
fn hand_in_pays_the_recorded_band() {
    let mut c = catalog();
    c.leves[0].item_reward = [0, 0, 7_000_001, 0];
    c.leves[0].item_reward_quantity = [0, 0, 3, 0];
    let mut j = completed_journal(130_001, 2);
    let out = hand_in_regional_leve(&mut j, &c, 130_001, 0);
    assert_eq!(out.gil_granted, 600);
    assert_eq!(out.item_granted, Some((7_000_001, 3)));
}

#[test]
fn hand_in_incomplete_leve_is_noop() {
    let c = catalog();
    let mut j = QuestJournal::new();
    let mut q = accepted_quest(130_001, "leve130001");
    q.set_counter(0, 2);
    j.add(q);
    let out = hand_in_regional_leve(&mut j, &c, 130_001, 0);
    assert!(!out.applied, "incomplete leve hand-in must no-op");
    assert_eq!(out.gil_granted, 0);
    assert!(j.get(130_001).is_some());
}

#[test]
fn hand_in_is_idempotent_across_double_calls() {
    let c = catalog();
    let mut j = completed_journal(130_001, 0);
    assert!(hand_in_regional_leve(&mut j, &c, 130_001, 0).applied);
    let second = hand_in_regional_leve(&mut j, &c, 130_001, 0);
    assert!(!second.applied);
    assert_eq!(second.gil_granted, 0);
}

#[test]
fn accept_regional_leve_installs_journal_entry() {
    let c = catalog();
    let mut j = QuestJournal::new();
    assert!(accept_regional_leve(&mut j, &c, 130_003, 2));
    let q = j.get(130_003).expect("in journal");
    assert!(q.get_flag(ACCEPTED_FLAG_BIT));
    assert_eq!(q.get_counter(1), 2, "counter2 = difficulty band");
    assert!(!q.get_flag(COMPLETED_FLAG_BIT));
    assert_ne!(q.flags & (1 << ACCEPTED_FLAG_BIT), 0);
    assert_eq!(q.name, "fcl130003");
}

#[test]
fn card_id_resolves_to_leve_and_accept_journals() {
    let c = catalog();
    let leve_id = c.leve_for_plate(0x30C3).expect("card maps").id;
    assert_eq!(leve_id, 140_001);
    let mut j = QuestJournal::new();
    assert!(accept_regional_leve(&mut j, &c, leve_id, 0));
    assert!(j.get(leve_id).unwrap().get_flag(ACCEPTED_FLAG_BIT));
}

#[test]
fn accept_regional_leve_rejects_unknown_leve_id_and_bad_band() {
    let c = catalog();
    let mut j = QuestJournal::new();
    assert!(!accept_regional_leve(&mut j, &c, 999_999, 0));
    assert!(j.get(999_999).is_none());
    assert!(!accept_regional_leve(&mut j, &c, 130_001, 4));
    assert!(j.get(130_001).is_none());
}

#[test]
fn accept_regional_leve_is_idempotent_on_double_call() {
    let c = catalog();
    let mut j = QuestJournal::new();
    assert!(accept_regional_leve(&mut j, &c, 130_001, 1));
    assert!(!accept_regional_leve(&mut j, &c, 130_001, 3), "second accept no-ops");
    assert_eq!(j.get(130_001).unwrap().get_counter(1), 1);
}

#[test]
fn full_leve_loop_accept_progress_hand_in() {
    let c = catalog();
    let mut j = QuestJournal::new();
    assert!(accept_regional_leve(&mut j, &c, 130_003, 0));
    assert_eq!(advance_fieldcraft_leves(&mut j, &c, 10_001_006, 5), vec![130_003]);
    let out = hand_in_regional_leve(&mut j, &c, 130_003, GC_MAELSTROM);
    assert!(out.applied);
    assert_eq!(out.gil_granted, 200);
    assert_eq!(out.seals_granted, None);
    assert!(j.quests.is_empty());
}
