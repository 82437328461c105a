use map_server::leveling::{
    add_class_exp, consume_rested_xp, gain_class_exp, inn_accrual, INN_REST_BONUS_CAP,
    INN_REST_INTERVAL_SECS, MAX_LEVEL,
};

#[test]
fn consume_rested_xp_math_follows_retail_shape() {
    // Zero-rested → no bonus, no decay.
    assert_eq!(consume_rested_xp(100, 0), (100, 0));
    // Negative rested clamps to 0.
    assert_eq!(consume_rested_xp(100, -42), (100, 0));
    // Zero exp → no-op.
    assert_eq!(consume_rested_xp(0, 50), (0, 50));
    // Negative exp → no-op (clamped return).
    assert_eq!(consume_rested_xp(-1, 50), (-1, 50));

    // Full rested doubles the gain; decay = max(1, (exp+49)/50) = 2.
    let (total, new_rested) = consume_rested_xp(100, 100);
    assert_eq!(total, 200);
    assert_eq!(new_rested, 98, "100 XP → decay 2 ((100+49)/50)");

    // Half-rested gives +50% bonus.
    let (total_half, _) = consume_rested_xp(100, 50);
    assert_eq!(total_half, 150);

    // Tiny gains still decay by at least 1.
    let (_, rested_after_small) = consume_rested_xp(1, 100);
    assert_eq!(rested_after_small, 99);

    // Rested clamps at 100 (over-seeded values don't balloon the bonus).
    let (total_clamped, _) = consume_rested_xp(100, 200);
    assert_eq!(total_clamped, 200, "rested past 100 still caps at +100%");
}

#[test]
fn rested_bonus_saturates_at_i32_max() {
    assert_eq!(consume_rested_xp(i32::MAX, 100).0, i32::MAX);
    // Decay never drives the rate below zero.
    assert_eq!(consume_rested_xp(10_000, 3), (10_300, 0));
}

#[test]
fn class_exp_rolls_through_two_thresholds_with_surplus() {
    // 570 (1→2) + 700 (2→3) + 1 surplus = 1271 SP.
    assert_eq!(add_class_exp(1, 0, 1271), (3, 1));
    // A second grant on the levelled class only adds points.
    assert_eq!(add_class_exp(3, 1, 100), (3, 101));
}

#[test]
fn class_exp_crosses_three_thresholds() {
    // 570 + 700 + 880 = 2150; 2200 crosses to level 4 with 50 left.
    assert_eq!(add_class_exp(1, 0, 2200), (4, 50));
    // 600 crosses 1 → 2.
    assert_eq!(add_class_exp(1, 0, 600), (2, 30));
}

#[test]
fn class_exp_stops_at_level_cap() {
    assert_eq!(add_class_exp(MAX_LEVEL, 0, 1_000_000), (50, 0));
    // Rolling into the cap drops the surplus too.
    assert_eq!(add_class_exp(49, 0, 100_000), (50, 0));
    // A negative grant stops at zero points.
    assert_eq!(add_class_exp(5, 10, -500), (5, 0));
}

#[test]
fn class_exp_grant_consumes_rested_pool() {
    // 100 base XP at 50% rested → 150 effective gain, rested drops by 2.
    assert_eq!(gain_class_exp(1, 0, 50, 100), (1, 150, 48));
}

#[test]
fn inn_accrual_anchors_then_grants_per_interval_and_clamps() {
    let t0: u32 = 1_000_000;
    // First pass anchors the window, no grant.
    assert_eq!(inn_accrual(true, 0, 0, t0), (0, t0));
    // One interval later: +1.
    let t1 = t0 + INN_REST_INTERVAL_SECS;
    assert_eq!(inn_accrual(true, 0, t0, t1), (1, t1));
    // Ten intervals later: +10.
    let t2 = t1 + 10 * INN_REST_INTERVAL_SECS;
    assert_eq!(inn_accrual(true, 1, t1, t2).0, 11);
    // A massive jump clamps at the cap.
    let t3 = t2 + 1_000 * INN_REST_INTERVAL_SECS;
    assert_eq!(inn_accrual(true, 11, t2, t3).0, INN_REST_BONUS_CAP);
    // Part of an interval earns nothing and keeps the anchor.
    assert_eq!(inn_accrual(true, 5, t0, t0 + 10), (5, t0));
}

#[test]
fn inn_accrual_outside_inn_clears_anchor() {
    assert_eq!(inn_accrual(false, 30, 999_999, 2_000_000), (30, 0));
}

#[test]
fn inn_accrual_brings_an_over_cap_rate_back_to_the_cap() {
    let t0: u32 = 1_700_000_000;
    assert_eq!(inn_accrual(true, 200, t0, t0 + 360).0, INN_REST_BONUS_CAP);
    assert_eq!(inn_accrual(true, 200, t0, t0 + 10), (200, t0), "no whole interval yet");
    assert_eq!(inn_accrual(false, 200, t0, t0 + 360), (200, 0));
}
