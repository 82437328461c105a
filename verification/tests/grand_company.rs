use map_server::grand_company::{
    add_seals, kill_seal_reward, leve_completion_seal_reward, next_rank, promotion_cost,
    rank_seal_cap, seal_deposit, GcStanding, PromotionOutcome, GC_IMMORTAL_FLAMES, GC_MAELSTROM,
    GC_TWIN_ADDER, RANK_RECRUIT,
};

#[test]
fn leve_completion_seal_reward_matches_difficulty_table() {
    assert_eq!(leve_completion_seal_reward(1), 150);
    assert_eq!(leve_completion_seal_reward(2), 250);
    assert_eq!(leve_completion_seal_reward(3), 350);
    assert_eq!(leve_completion_seal_reward(4), 450);
    assert_eq!(leve_completion_seal_reward(5), 550);
    // Out-of-range difficulty values surface as 0 — caller cleanly
    // skips the deposit, no panic.
    assert_eq!(leve_completion_seal_reward(0), 0);
    assert_eq!(leve_completion_seal_reward(6), 0);
    assert_eq!(leve_completion_seal_reward(255), 0);
}

#[test]
fn rank_ladder_helpers_answer_officer_questions() {
    assert_eq!(next_rank(127), Some(11));
    assert_eq!(next_rank(11), Some(13));
    assert_eq!(next_rank(17), Some(21));
    assert_eq!(next_rank(31), None);
    assert_eq!(next_rank(12), None);
    assert_eq!(promotion_cost(127), 100);
    assert_eq!(promotion_cost(11), 100);
    assert_eq!(promotion_cost(17), 2_500);
    assert_eq!(promotion_cost(31), 0);
    assert_eq!(promotion_cost(99), 0);
    assert_eq!(rank_seal_cap(11), 10_000);
    assert_eq!(rank_seal_cap(99), 0);
}

#[test]
fn add_seals_merges_and_clamps_at_zero() {
    let b = add_seals(0, 500);
    assert_eq!(b, 500);
    let b = add_seals(b, 300);
    assert_eq!(b, 800);
    assert_eq!(add_seals(b, -100_000), 0);
    assert_eq!(add_seals(i32::MAX, 5), i32::MAX);
}

#[test]
fn join_gc_sets_current_and_recruit_rank_only_there() {
    let mut s = GcStanding::new();
    assert!(s.join(GC_IMMORTAL_FLAMES));
    assert_eq!(s.gc_current, GC_IMMORTAL_FLAMES);
    assert_eq!(s.rank_in(GC_IMMORTAL_FLAMES), RANK_RECRUIT);
    assert_eq!(s.rank_limsa, 127);
    assert_eq!(s.rank_gridania, 127);
    s.set_rank(GC_IMMORTAL_FLAMES, 17);
    assert_eq!(s.rank_uldah, 17);
    assert!(!s.join(9));
    assert_eq!(s.gc_current, GC_IMMORTAL_FLAMES);
}

fn enlisted(gc: u8, rank: u8) -> GcStanding {
    let mut s = GcStanding::new();
    s.join(gc);
    s.set_rank(gc, rank);
    s
}

#[test]
fn promote_gc_happy_path_spends_seals_and_bumps_rank() {
    let mut s = enlisted(GC_MAELSTROM, RANK_RECRUIT);
    let mut seals = 500;
    let out = s.promote(GC_MAELSTROM, &mut seals, false);
    assert_eq!(out, PromotionOutcome::Promoted { new_rank: 11, cost: 100 });
    assert_eq!(s.rank_limsa, 11);
    assert_eq!(seals, 400);
}

#[test]
fn promote_gc_refuses_when_seals_below_cost() {
    let mut s = enlisted(GC_TWIN_ADDER, RANK_RECRUIT);
    let mut seals = 50;
    let out = s.promote(GC_TWIN_ADDER, &mut seals, false);
    assert_eq!(out, PromotionOutcome::InsufficientSeals { have: 50, need: 100 });
    assert_eq!(s.rank_gridania, RANK_RECRUIT);
    assert_eq!(seals, 50);
}

#[test]
fn promote_gc_refuses_when_not_enlisted_in_target_gc() {
    let mut s = enlisted(GC_MAELSTROM, RANK_RECRUIT);
    let mut seals = 1000;
    let out = s.promote(GC_IMMORTAL_FLAMES, &mut seals, true);
    assert_eq!(out, PromotionOutcome::NotEnlisted);
    assert_eq!(s.rank_uldah, RANK_RECRUIT);
    assert_eq!(s.rank_limsa, RANK_RECRUIT);
    assert_eq!(seals, 1000);
}

#[test]
fn promote_gc_refuses_at_story_rank_cap() {
    let mut s = enlisted(GC_IMMORTAL_FLAMES, 31);
    let mut seals = 50_000;
    assert_eq!(s.promote(GC_IMMORTAL_FLAMES, &mut seals, true), PromotionOutcome::AtRankCap);
    assert_eq!(s.rank_uldah, 31);
    assert_eq!(seals, 50_000);
}

#[test]
fn promote_gc_refuses_at_sergeant_tier_shift_without_quest_completed() {
    let mut s = enlisted(GC_MAELSTROM, 17);
    let mut seals = 100_000;
    assert_eq!(
        s.promote(GC_MAELSTROM, &mut seals, false),
        PromotionOutcome::OfficerQuestIncomplete
    );
    assert_eq!(s.rank_limsa, 17);
    assert_eq!(seals, 100_000);
}

#[test]
fn promote_gc_passes_sergeant_tier_shift_when_quest_completed() {
    let mut s = enlisted(GC_MAELSTROM, 17);
    let mut seals = 5_000;
    assert_eq!(
        s.promote(GC_MAELSTROM, &mut seals, true),
        PromotionOutcome::Promoted { new_rank: 21, cost: 2_500 }
    );
    assert_eq!(s.rank_limsa, 21);
    assert_eq!(seals, 5_000 - 2_500);
}

#[test]
fn seal_deposit_respects_enlistment_and_rank_cap() {
    // Enlisted Sergeant earns a 3-star leve reward in full.
    assert_eq!(seal_deposit(GC_MAELSTROM, 21, 0, leve_completion_seal_reward(3)), 350);
    // Unenlisted earns nothing.
    assert_eq!(seal_deposit(0, RANK_RECRUIT, 0, leve_completion_seal_reward(5)), 0);
    // At the Pvt3 cap the deposit is refused.
    assert_eq!(seal_deposit(GC_TWIN_ADDER, 11, 10_000, leve_completion_seal_reward(5)), 0);
    // Just below the cap only the gap is deposited.
    assert_eq!(seal_deposit(GC_TWIN_ADDER, 11, 9_900, 550), 100);
}

#[test]
fn battle_kill_grants_seals_by_enemy_level() {
    assert_eq!(kill_seal_reward(12), 12);
    assert_eq!(kill_seal_reward(0), 0);
    assert_eq!(seal_deposit(GC_MAELSTROM, 11, 0, kill_seal_reward(12)), 12);
    assert_eq!(seal_deposit(0, 11, 0, kill_seal_reward(12)), 0);
}
