use map_server::crafting::{PassiveGuildleveData, PassiveGuildleveView};
use map_server::quest::{quest_actor_id, Quest};

fn data_120001() -> PassiveGuildleveData {
    PassiveGuildleveData {
        id: 120_001,
        plate_id: 0,
        border_id: 0,
        recommended_class: 0,
        issuing_location: 0,
        leve_location: 0,
        delivery_display_name: 0,
        objective_item_id: [3_000_001, 0, 0, 0],
        objective_quantity: [4, 0, 0, 0],
        number_of_attempts: [5, 0, 0, 0],
        recommended_level: [0; 4],
        reward_item_id: [0; 4],
        reward_quantity: [0; 4],
    }
}

#[test]
fn passive_guildleve_view_craft_success_end_to_end() {
    let data = data_120001();
    let mut quest = Quest::new(quest_actor_id(120_001), "plg120001");
    let mut view = PassiveGuildleveView::new(&mut quest, &data);
    view.set_has_materials(true);

    // Three successful crafts, two failures, then attempts exhausted.
    for _ in 0..3 {
        view.craft_success(1);
    }
    view.craft_fail();
    view.craft_fail();
    assert_eq!(view.current_crafted(), 3);
    assert_eq!(view.current_attempt(), 5);
    assert_eq!(view.remaining_materials(), 0);
    // Still under objective (3 < 4) — leve would fail in the UI loop.
    assert!(view.current_crafted() < view.objective_quantity() as u16);
}

#[test]
fn passive_guildleve_progress_lands_on_the_quest() {
    let data = data_120001();
    let mut quest = Quest::new(quest_actor_id(120_001), "plg120001");
    {
        let mut view = PassiveGuildleveView::new(&mut quest, &data);
        view.set_has_materials(true);
        view.craft_success(2);
        assert_eq!(view.remaining_materials(), 4);
        assert_eq!(view.objective_item_id(), 3_000_001);
    }
    assert_eq!(quest.get_counter(0), 2);
    assert_eq!(quest.get_counter(2), 1);
}

#[test]
fn passive_guildleve_without_materials_has_none_remaining() {
    let data = data_120001();
    let mut quest = Quest::new(quest_actor_id(120_001), "plg120001");
    let mut view = PassiveGuildleveView::new(&mut quest, &data);
    assert!(!view.has_materials());
    assert_eq!(view.remaining_materials(), 0);
    view.set_has_materials(true);
    assert_eq!(view.remaining_materials(), 5);
    view.set_has_materials(false);
    assert_eq!(view.remaining_materials(), 0);
}

#[test]
fn passive_guildleve_band_reads_its_own_column() {
    let mut data = data_120001();
    data.objective_quantity = [4, 6, 8, 10];
    data.number_of_attempts = [5, 6, 7, 8];
    let mut quest = Quest::new(quest_actor_id(120_001), "plg120001");
    quest.set_counter(1, 2);
    let view = PassiveGuildleveView::new(&mut quest, &data);
    assert_eq!(view.difficulty(), 2);
    assert_eq!(view.objective_quantity(), 8);
    assert_eq!(view.number_of_attempts(), 7);
}
