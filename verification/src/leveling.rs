//! Class experience: rested bonus, level thresholds and inn accrual.

use vstd::prelude::*;

verus! {

/// Upper bound of the rested-experience rate, in percent.
pub const REST_BONUS_MAX: i32 = 100;

/// The rested rate clamped into `0..=100`.
pub open spec fn clamp_rested(rested: int) -> int {
    if rested < 0 {
        0
    } else if rested > REST_BONUS_MAX {
        REST_BONUS_MAX as int
    } else {
        rested
    }
}

/// How much of the rested rate one grant of `exp` uses up: one point
/// per fifty experience, rounded up, and never less than one.
pub open spec fn rested_decay(exp: int) -> int {
    let d = (exp + 49) / 50;
    if d < 1 {
        1
    } else {
        d
    }
}

/// The experience after the rested bonus, and the rate left afterwards.
///
/// A positive grant at a positive rate earns `exp * rate / 100` on top
/// (the rate read as at most one hundred percent), and the rate drops
/// by `rested_decay(exp)`, stopping at zero. A grant of zero or less,
/// or a rate of zero or less, leaves the grant as it is; the rate comes
/// back clamped into `0..=100` in every case.
pub open spec fn spec_consume_rested_xp(exp: int, rested: int) -> (int, int) {
    let r = clamp_rested(rested);
    if exp <= 0 || r == 0 {
        (exp, r)
    } else {
        let total = exp + exp * r / 100;
        let left = r - rested_decay(exp);
        (if total > i32::MAX { i32::MAX as int } else { total }, if left < 0 { 0 } else { left })
    }
}

/// Applies the rested bonus to an experience grant.
/// Returns `(effective_exp, rested_rate_after)`; a total beyond
/// `i32::MAX` saturates there.
pub fn consume_rested_xp(exp: i32, rested: i32) -> (res: (i32, i32))
    ensures
        res.0 as int == spec_consume_rested_xp(exp as int, rested as int).0,
        res.1 as int == spec_consume_rested_xp(exp as int, rested as int).1,
{
    let r: i32 = if rested < 0 {
        0
    } else if rested > REST_BONUS_MAX {
        REST_BONUS_MAX
    } else {
        rested
    };
    if exp <= 0 || r == 0 {
        return (exp, r);
    }
    let e: i64 = exp as i64;
    assert(0 <= e * (r as i64) <= 100 * (i32::MAX as int)) by (nonlinear_arith)
        requires 0 < e <= i32::MAX, 0 < r <= 100;
    let bonus: i64 = e * (r as i64) / 100;
    let total: i64 = e + bonus;
    let total32: i32 = if total > i32::MAX as i64 { i32::MAX } else { total as i32 };
    let d0: i64 = (e + 49) / 50;
    let decay: i64 = if d0 < 1 { 1 } else { d0 };
    let left: i64 = (r as i64) - decay;
    let left32: i32 = if left < 0 { 0 } else { left as i32 };
    (total32, left32)
}


/// Highest class level.
pub const MAX_LEVEL: i16 = 50;

/// Skill points needed to advance from level `n + 1` to `n + 2`.
pub const EXP_TABLE: [i32; 49] = [
    570, 700, 880, 1100, 1500, 1800, 2300, 3200, 4300, 5000,
    5900, 6800, 7700, 8700, 9700, 11000, 12500, 14000, 15500, 17000,
    18500, 20000, 22000, 24000, 26000, 28000, 30000, 32000, 34000, 36000,
    38000, 40000, 42000, 44000, 46000, 48000, 50000, 53000, 56000, 59000,
    62000, 65000, 68000, 71000, 74000, 78000, 81000, 85000, 89000,
];

/// Skill points that take a class from `level` to `level + 1`
/// (meaningful for `1 <= level < MAX_LEVEL`).
pub open spec fn exp_threshold(level: int) -> int {
    EXP_TABLE@[level - 1] as int
}

/// Every threshold is positive.
pub proof fn lemma_thresholds_positive()
    ensures
        forall|level: int| 1 <= level < MAX_LEVEL ==> 0 < #[trigger] exp_threshold(level) <= 89000,
{
    assert(EXP_TABLE@ =~= seq![
        570i32, 700, 880, 1100, 1500, 1800, 2300, 3200, 4300, 5000,
        5900, 6800, 7700, 8700, 9700, 11000, 12500, 14000, 15500, 17000,
        18500, 20000, 22000, 24000, 26000, 28000, 30000, 32000, 34000, 36000,
        38000, 40000, 42000, 44000, 46000, 48000, 50000, 53000, 56000, 59000,
        62000, 65000, 68000, 71000, 74000, 78000, 81000, 85000, 89000,
    ]);
}

/// Rolls a class forward through every threshold that `sp` pays for.
/// At the level cap the leftover points are dropped.
pub open spec fn roll_levels(level: int, sp: int) -> (int, int)
    decreases MAX_LEVEL - level,
{
    if level >= MAX_LEVEL || level < 1 {
        (MAX_LEVEL as int, 0)
    } else if sp >= exp_threshold(level) {
        roll_levels(level + 1, sp - exp_threshold(level))
    } else {
        (level, sp)
    }
}

/// Points spent to climb from level 1 to `level`.
pub open spec fn exp_to_reach(level: int) -> int
    decreases level,
{
    if level <= 1 {
        0
    } else {
        exp_to_reach(level - 1) + exp_threshold(level - 1)
    }
}

/// The class state after a grant of `gain` skill points to a class at
/// `level` holding `sp` points (a negative sum stops at zero).
pub open spec fn spec_add_class_exp(level: int, sp: int, gain: int) -> (int, int) {
    let total = sp + gain;
    roll_levels(level, if total < 0 { 0 } else { total })
}

/// Adds skill points to a class and levels it up through every
/// threshold they cover. Returns `(level, skill_points)`.
pub fn add_class_exp(level: i16, sp: i32, gain: i32) -> (res: (i16, i32))
    requires
        1 <= level <= MAX_LEVEL,
    ensures
        res.0 as int == spec_add_class_exp(level as int, sp as int, gain as int).0,
        res.1 as int == spec_add_class_exp(level as int, sp as int, gain as int).1,
        level <= res.0 <= MAX_LEVEL,
        0 <= res.1,
        res.0 < MAX_LEVEL ==> res.1 < exp_threshold(res.0 as int),
        res.0 == MAX_LEVEL ==> res.1 == 0,
{
    proof {
        lemma_thresholds_positive();
    }
    let t: i64 = sp as i64 + gain as i64;
    let mut total: i64 = if t < 0 { 0 } else { t };
    let mut lv: i16 = level;
    while lv < MAX_LEVEL && total >= EXP_TABLE[(lv - 1) as usize] as i64
        invariant
            1 <= level <= lv <= MAX_LEVEL,
            total >= 0,
            forall|l: int| 1 <= l < MAX_LEVEL ==> 0 < #[trigger] exp_threshold(l) <= 89000,
            roll_levels(lv as int, total as int) == spec_add_class_exp(
                level as int,
                sp as int,
                gain as int,
            ),
        decreases MAX_LEVEL - lv,
    {
        total = total - EXP_TABLE[(lv - 1) as usize] as i64;
        lv = lv + 1;
    }
    if lv >= MAX_LEVEL {
        (MAX_LEVEL, 0)
    } else {
        (lv, total as i32)
    }
}

proof fn lemma_roll_conserves(level: int, sp: int)
    requires
        1 <= level <= MAX_LEVEL,
        sp >= 0,
    ensures
        level <= roll_levels(level, sp).0 <= MAX_LEVEL,
        roll_levels(level, sp).0 < MAX_LEVEL ==> exp_to_reach(roll_levels(level, sp).0)
            + roll_levels(level, sp).1 == exp_to_reach(level) + sp,
    decreases MAX_LEVEL - level,
{
    lemma_thresholds_positive();
    if level < MAX_LEVEL && sp >= exp_threshold(level) {
        lemma_roll_conserves(level + 1, sp - exp_threshold(level));
    }
}

/// Experience is never lost below the level cap: the points spent on
/// the levels gained plus the points left over equal the points held
/// before plus the grant.
pub proof fn law_class_exp_conserved(level: i16, sp: i32, gain: i32)
    requires
        1 <= level <= MAX_LEVEL,
        sp + gain >= 0,
    ensures
        spec_add_class_exp(level as int, sp as int, gain as int).0 < MAX_LEVEL ==> exp_to_reach(
            spec_add_class_exp(level as int, sp as int, gain as int).0,
        ) + spec_add_class_exp(level as int, sp as int, gain as int).1 == exp_to_reach(
            level as int,
        ) + sp + gain,
{
    lemma_roll_conserves(level as int, sp + gain);
}

/// The class state after a grant that first passes through the rested
/// bonus: `(level, skill_points, rested_rate)`.
pub open spec fn spec_gain_class_exp(level: int, sp: int, rested: int, gain: int) -> (int, int, int) {
    let (effective, left) = spec_consume_rested_xp(gain, rested);
    let (l, p) = spec_add_class_exp(level, sp, effective);
    (l, p, left)
}

/// A grant of class experience as the server applies it: the rested
/// bonus first, then the level roll. Returns
/// `(level, skill_points, rested_rate)`.
pub fn gain_class_exp(level: i16, sp: i32, rested: i32, gain: i32) -> (res: (i16, i32, i32))
    requires
        1 <= level <= MAX_LEVEL,
    ensures
        res.0 as int == spec_gain_class_exp(level as int, sp as int, rested as int, gain as int).0,
        res.1 as int == spec_gain_class_exp(level as int, sp as int, rested as int, gain as int).1,
        res.2 as int == spec_gain_class_exp(level as int, sp as int, rested as int, gain as int).2,
{
    let (effective, left) = consume_rested_xp(gain, rested);
    let (l, p) = add_class_exp(level, sp, effective);
    (l, p, left)
}


/// Seconds spent in an inn that earn one point of rested rate.
pub const INN_REST_INTERVAL_SECS: u32 = 360;

/// Highest rested rate that an inn stay can build up.
pub const INN_REST_BONUS_CAP: i32 = 100;

/// One pass of the inn accrual over a player: `(rested, anchor)`.
///
/// Outside an inn the rate stays and the anchor is cleared, so that a
/// later stay starts a fresh window. In an inn, the first pass only
/// sets the anchor to `now`; later passes grant one point per whole
/// interval since the anchor, up to the cap, and move the anchor
/// forward by the intervals granted (the part of an interval not yet
/// completed is kept).
pub open spec fn spec_inn_accrual(in_inn: bool, rested: int, anchor: int, now: int) -> (int, int) {
    if !in_inn {
        (rested, 0)
    } else if anchor == 0 {
        (rested, now)
    } else if now <= anchor {
        (rested, anchor)
    } else {
        let n = (now - anchor) / (INN_REST_INTERVAL_SECS as int);
        if n == 0 {
            (rested, anchor)
        } else {
            let r = rested + n;
            (
                if r > INN_REST_BONUS_CAP { INN_REST_BONUS_CAP as int } else { r },
                anchor + n * (INN_REST_INTERVAL_SECS as int),
            )
        }
    }
}

/// Applies one accrual pass; `now` and `anchor` are Unix seconds.
pub fn inn_accrual(in_inn: bool, rested: i32, anchor: u32, now: u32) -> (res: (i32, u32))
    ensures
        res.0 as int == spec_inn_accrual(in_inn, rested as int, anchor as int, now as int).0,
        res.1 as int == spec_inn_accrual(in_inn, rested as int, anchor as int, now as int).1,
        rested <= INN_REST_BONUS_CAP ==> rested <= res.0 <= INN_REST_BONUS_CAP,
{
    if !in_inn {
        return (rested, 0);
    }
    if anchor == 0 {
        return (rested, now);
    }
    if now <= anchor {
        return (rested, anchor);
    }
    let n: u32 = (now - anchor) / INN_REST_INTERVAL_SECS;
    if n == 0 {
        return (rested, anchor);
    }
    let r: i64 = rested as i64 + n as i64;
    let new_rested: i32 = if r > INN_REST_BONUS_CAP as i64 { INN_REST_BONUS_CAP } else { r as i32 };
    assert(n * INN_REST_INTERVAL_SECS <= now - anchor) by (nonlinear_arith)
        requires n == (now - anchor) / 360, now > anchor;
    (new_rested, anchor + n * INN_REST_INTERVAL_SECS)
}

proof fn lemma_reach_monotonic(a: int, b: int)
    requires
        1 <= a <= b <= MAX_LEVEL,
    ensures
        exp_to_reach(a) <= exp_to_reach(b),
    decreases b - a,
{
    lemma_thresholds_positive();
    if a < b {
        lemma_reach_monotonic(a, b - 1);
    }
}

proof fn lemma_roll_reaches_cap(level: int, sp: int)
    requires
        1 <= level < MAX_LEVEL,
        sp >= 0,
    ensures
        roll_levels(level, sp).0 == MAX_LEVEL <==> exp_to_reach(level) + sp >= exp_to_reach(
            MAX_LEVEL as int,
        ),
        roll_levels(level, sp).0 < MAX_LEVEL ==> roll_levels(level, sp).1 < exp_threshold(
            roll_levels(level, sp).0,
        ),
    decreases MAX_LEVEL - level,
{
    lemma_thresholds_positive();
    lemma_roll_conserves(level, sp);
    if sp >= exp_threshold(level) {
        assert(exp_to_reach(level + 1) == exp_to_reach(level) + exp_threshold(level));
        assert(roll_levels(level, sp) == roll_levels(level + 1, sp - exp_threshold(level)));
        if level + 1 < MAX_LEVEL {
            lemma_roll_reaches_cap(level + 1, sp - exp_threshold(level));
        } else {
            assert(roll_levels(level + 1, sp - exp_threshold(level)) == (MAX_LEVEL as int, 0int));
        }
    } else {
        assert(roll_levels(level, sp) == (level, sp));
        assert(exp_to_reach(level + 1) == exp_to_reach(level) + exp_threshold(level));
        lemma_reach_monotonic(level + 1, MAX_LEVEL as int);
    }
}

/// The level cap is reached exactly when it is paid for: a class below
/// level 50 ends the grant at level 50 if and only if the points spent
/// reaching its level, plus those it held, plus the grant, cover the
/// whole table up to 50. Below the cap, the points kept never pay for
/// the next level.
pub proof fn law_level_cap_is_paid_for(level: i16, sp: i32, gain: i32)
    requires
        1 <= level < MAX_LEVEL,
        sp + gain >= 0,
    ensures
        MAX_LEVEL == 50,
        spec_add_class_exp(level as int, sp as int, gain as int).0 == 50 <==> exp_to_reach(level as int)
            + sp + gain >= exp_to_reach(50),
        spec_add_class_exp(level as int, sp as int, gain as int).0 < 50 ==> spec_add_class_exp(
            level as int,
            sp as int,
            gain as int,
        ).1 < exp_threshold(spec_add_class_exp(level as int, sp as int, gain as int).0),
{
    lemma_roll_reaches_cap(level as int, sp + gain);
}

/// The rested bonus: at a rate of `rested` percent (1 to 100), a grant
/// of `exp` points earns `exp * rested / 100` (rounded down) on top, and
/// the rate falls by one per fifty points granted, rounded up and at
/// least one, never below zero. Without a rate, or for a grant of no
/// points, the grant is unchanged; a rate above 100 counts as 100.
pub proof fn law_rested_bonus_formula(exp: i32, rested: i32)
    ensures
        REST_BONUS_MAX == 100,
        0 < exp && 0 < rested <= 100 && exp + exp * rested / 100 <= i32::MAX ==> spec_consume_rested_xp(
            exp as int,
            rested as int,
        ).0 == exp + exp * rested / 100,
        0 < exp && 0 < rested <= 100 ==> spec_consume_rested_xp(exp as int, rested as int).1 == (
        if rested - (exp + 49) / 50 < 0 {
            0
        } else {
            rested - (exp + 49) / 50
        }),
        rested > 100 ==> spec_consume_rested_xp(exp as int, rested as int) == spec_consume_rested_xp(
            exp as int,
            100,
        ),
        exp <= 0 || rested <= 0 ==> spec_consume_rested_xp(exp as int, rested as int).0 == exp,
        0 < exp ==> spec_consume_rested_xp(exp as int, rested as int).0 >= exp,
{
    if 0 < exp && 0 < rested <= 100 {
        assert(exp * rested / 100 >= 0) by (nonlinear_arith)
            requires 0 < exp, 0 < rested;
        assert((exp + 49) / 50 >= 1);
    }
    if 0 < exp && 0 < rested {
        let r = if rested > 100 { 100int } else { rested as int };
        assert(exp * r / 100 >= 0) by (nonlinear_arith)
            requires 0 < exp, 0 < r;
    }
}

} // verus!
