//! Grand Company enlistment, the rank ladder, promotions and seals.

use vstd::prelude::*;

verus! {

/// The Maelstrom (Limsa Lominsa).
pub const GC_MAELSTROM: u8 = 1;

/// The Order of the Twin Adder (Gridania).
pub const GC_TWIN_ADDER: u8 = 2;

/// The Immortal Flames (Ul'dah).
pub const GC_IMMORTAL_FLAMES: u8 = 3;

/// Rank of an enlisted member who has not been promoted yet (also the
/// rank recorded for a company the player never joined).
pub const RANK_RECRUIT: u8 = 127;

/// Rank below which a promotion needs the company's officer quest:
/// Corporal, promoted to Sergeant Third Class.
pub const RANK_CORPORAL: u8 = 17;

/// The Maelstrom's officer quest, "An Officer and a Wise Man".
pub const MAELSTROM_OFFICER_QUEST: u32 = 111_405;

/// Catalog id of the Storm seal (Maelstrom).
pub const SEAL_ITEM_STORM: u32 = 1_000_201;

/// Catalog id of the Serpent seal (Twin Adder).
pub const SEAL_ITEM_SERPENT: u32 = 1_000_202;

/// Catalog id of the Flame seal (Immortal Flames).
pub const SEAL_ITEM_FLAME: u32 = 1_000_203;

/// Whether `gc` names one of the three companies.
pub open spec fn is_company(gc: u8) -> bool {
    gc == GC_MAELSTROM || gc == GC_TWIN_ADDER || gc == GC_IMMORTAL_FLAMES
}

/// The rank ladder, lowest first: Recruit, the three Privates,
/// Corporal, the three Sergeants, Chief Sergeant, Second Lieutenant.
pub open spec fn rank_ladder() -> Seq<u8> {
    seq![127u8, 11u8, 13u8, 15u8, 17u8, 21u8, 23u8, 25u8, 27u8, 31u8]
}

/// Seals a promotion from each rung of the ladder costs (the last rung
/// cannot be promoted from).
pub open spec fn promotion_costs() -> Seq<i32> {
    seq![100i32, 100, 500, 1000, 2500, 5000, 7500, 10000, 15000, 0]
}

/// Most seals a member of each rung can hold.
pub open spec fn seal_caps() -> Seq<i32> {
    seq![10000i32, 10000, 15000, 20000, 25000, 30000, 35000, 40000, 45000, 50000]
}

/// Position of `rank` on the ladder, or -1 when it is not a rank.
pub open spec fn rank_index(rank: u8) -> int {
    if exists|i: int| 0 <= i < 10 && rank_ladder()[i] == rank {
        choose|i: int| 0 <= i < 10 && rank_ladder()[i] == rank
    } else {
        -1
    }
}

/// The rank a promotion leads to, `None` at the top or for a value
/// that is not a rank.
pub open spec fn spec_next_rank(rank: u8) -> Option<u8> {
    let i = rank_index(rank);
    if 0 <= i < 9 {
        Some(rank_ladder()[i + 1])
    } else {
        None
    }
}

/// Seals a promotion from `rank` costs; 0 where no promotion exists.
pub open spec fn spec_promotion_cost(rank: u8) -> i32 {
    let i = rank_index(rank);
    if 0 <= i < 10 {
        promotion_costs()[i]
    } else {
        0
    }
}

/// Most seals a member of `rank` can hold; 0 for a value that is not a rank.
pub open spec fn spec_rank_seal_cap(rank: u8) -> i32 {
    let i = rank_index(rank);
    if 0 <= i < 10 {
        seal_caps()[i]
    } else {
        0
    }
}

proof fn lemma_rank_index(rank: u8, i: int)
    requires
        0 <= i < 10,
        rank_ladder()[i] == rank,
    ensures
        rank_index(rank) == i,
{
    assert(rank_ladder() =~= seq![127u8, 11u8, 13u8, 15u8, 17u8, 21u8, 23u8, 25u8, 27u8, 31u8]);
    let j = choose|j: int| 0 <= j < 10 && rank_ladder()[j] == rank;
    assert(j == i);
}

proof fn lemma_not_rank(rank: u8)
    requires
        forall|i: int| 0 <= i < 10 ==> rank_ladder()[i] != rank,
    ensures
        rank_index(rank) == -1,
{
}

/// Position of `rank` on the ladder.
fn ladder_position(rank: u8) -> (res: Option<usize>)
    ensures
        res is None ==> rank_index(rank) == -1,
        res matches Some(i) ==> i < 10 && rank_index(rank) == i as int && rank_ladder()[i as int]
            == rank,
{
    let ladder: [u8; 10] = [127u8, 11, 13, 15, 17, 21, 23, 25, 27, 31];
    assert(ladder@ =~= rank_ladder());
    let mut i: usize = 0;
    while i < 10
        invariant
            i <= 10,
            ladder@ == rank_ladder(),
            forall|j: int| 0 <= j < i ==> rank_ladder()[j] != rank,
        decreases 10 - i,
    {
        if ladder[i] == rank {
            proof {
                lemma_rank_index(rank, i as int);
            }
            return Some(i);
        }
        i = i + 1;
    }
    proof {
        lemma_not_rank(rank);
    }
    None
}

/// The rank after a promotion from `rank`; `None` at Second Lieutenant
/// (the top) or for a value that is not a rank.
pub fn next_rank(rank: u8) -> (res: Option<u8>)
    ensures
        res == spec_next_rank(rank),
{
    let ladder: [u8; 10] = [127u8, 11, 13, 15, 17, 21, 23, 25, 27, 31];
    assert(ladder@ =~= rank_ladder());
    match ladder_position(rank) {
        Some(i) => if i < 9 {
            Some(ladder[i + 1])
        } else {
            None
        },
        None => None,
    }
}

/// Seals a promotion from `rank` costs; 0 where no promotion exists.
pub fn promotion_cost(rank: u8) -> (res: i32)
    ensures
        res == spec_promotion_cost(rank),
{
    let costs: [i32; 10] = [100i32, 100, 500, 1000, 2500, 5000, 7500, 10000, 15000, 0];
    assert(costs@ =~= promotion_costs());
    match ladder_position(rank) {
        Some(i) => costs[i],
        None => 0,
    }
}

/// Most seals a member of `rank` can hold; 0 for a value that is not a rank.
pub fn rank_seal_cap(rank: u8) -> (res: i32)
    ensures
        res == spec_rank_seal_cap(rank),
{
    let caps: [i32; 10] = [10000i32, 10000, 15000, 20000, 25000, 30000, 35000, 40000, 45000, 50000];
    assert(caps@ =~= seal_caps());
    match ladder_position(rank) {
        Some(i) => caps[i],
        None => 0,
    }
}


/// Seals granted for completing a guildleve of `difficulty` stars:
/// 150, 250, 350, 450, 550 for one to five stars, 0 for any other value.
pub open spec fn spec_leve_completion_seal_reward(difficulty: u8) -> i32 {
    if 1 <= difficulty <= 5 {
        (50 + 100 * difficulty) as i32
    } else {
        0
    }
}

/// Seals granted for completing a guildleve of `difficulty` stars.
pub fn leve_completion_seal_reward(difficulty: u8) -> (res: i32)
    ensures
        res == spec_leve_completion_seal_reward(difficulty),
{
    if difficulty >= 1 && difficulty <= 5 {
        50 + 100 * (difficulty as i32)
    } else {
        0
    }
}

/// Seals granted to an enlisted member for defeating an enemy of
/// `enemy_level`: one per level (none for level 0 or below).
pub open spec fn spec_kill_seal_reward(enemy_level: i16) -> i32 {
    if enemy_level > 0 {
        enemy_level as i32
    } else {
        0
    }
}

/// Seals granted to an enlisted member for defeating an enemy of `enemy_level`.
pub fn kill_seal_reward(enemy_level: i16) -> (res: i32)
    ensures
        res == spec_kill_seal_reward(enemy_level),
{
    if enemy_level > 0 {
        enemy_level as i32
    } else {
        0
    }
}

/// Adds `delta` seals to a balance (negative to spend): never below
/// zero, stopping at `i32::MAX`.
pub fn add_seals(balance: i32, delta: i32) -> (res: i32)
    ensures
        res == crate::inventory::spec_add_currency(balance, delta),
{
    crate::inventory::add_currency(balance, delta)
}

/// Seals actually deposited when a member of `rank` holding `balance`
/// earns `reward`: nothing unless enlisted (`gc_current` names a
/// company) and under the rank's cap, and never more than brings the
/// balance up to the cap.
pub open spec fn spec_seal_deposit(gc_current: u8, rank: u8, balance: i32, reward: i32) -> i32 {
    let cap = spec_rank_seal_cap(rank);
    if !is_company(gc_current) || reward <= 0 || balance >= cap {
        0
    } else if reward > cap - balance {
        (cap - balance) as i32
    } else {
        reward
    }
}

/// Seals to deposit for a reward, after the enlistment and cap rules.
pub fn seal_deposit(gc_current: u8, rank: u8, balance: i32, reward: i32) -> (res: i32)
    ensures
        res == spec_seal_deposit(gc_current, rank, balance, reward),
        0 <= res,
{
    let cap = rank_seal_cap(rank);
    if !(gc_current == GC_MAELSTROM || gc_current == GC_TWIN_ADDER || gc_current
        == GC_IMMORTAL_FLAMES) || reward <= 0 || balance >= cap {
        0
    } else if reward as i64 > cap as i64 - balance as i64 {
        cap - balance
    } else {
        reward
    }
}

/// A player's standing with the three companies.
#[derive(Debug, Clone, Copy, PartialEq, Eq)]
pub struct GcStanding {
    /// Company the player serves now; 0 when not enlisted.
    pub gc_current: u8,
    /// Rank in the Maelstrom.
    pub rank_limsa: u8,
    /// Rank in the Order of the Twin Adder.
    pub rank_gridania: u8,
    /// Rank in the Immortal Flames.
    pub rank_uldah: u8,
}

/// The rank a standing records in company `gc` (0 for a value that is
/// not a company).
pub open spec fn spec_rank_in(s: GcStanding, gc: u8) -> u8 {
    if gc == GC_MAELSTROM {
        s.rank_limsa
    } else if gc == GC_TWIN_ADDER {
        s.rank_gridania
    } else if gc == GC_IMMORTAL_FLAMES {
        s.rank_uldah
    } else {
        0
    }
}

/// The standing with the rank in company `gc` replaced (unchanged for a
/// value that is not a company).
pub open spec fn with_rank(s: GcStanding, gc: u8, rank: u8) -> GcStanding {
    if gc == GC_MAELSTROM {
        GcStanding { rank_limsa: rank, ..s }
    } else if gc == GC_TWIN_ADDER {
        GcStanding { rank_gridania: rank, ..s }
    } else if gc == GC_IMMORTAL_FLAMES {
        GcStanding { rank_uldah: rank, ..s }
    } else {
        s
    }
}

/// Why a promotion was refused, or what it did.
#[derive(Debug, Clone, Copy, PartialEq, Eq)]
pub enum PromotionOutcome {
    /// Rank raised to `new_rank` for `cost` seals.
    Promoted { new_rank: u8, cost: i32 },
    /// The player does not serve this company.
    NotEnlisted,
    /// Already at the highest rank.
    AtRankCap,
    /// A Corporal needs the company's officer quest completed first.
    OfficerQuestIncomplete,
    /// Not enough seals: `have` of the `need`ed.
    InsufficientSeals { have: i32, need: i32 },
}

/// The outcome of asking company `gc` for a promotion. The conditions are tested
/// in this order: enlistment, the top of the ladder, the officer quest
/// (for a Corporal), then the seal balance.
pub open spec fn spec_promotion_outcome(
    s: GcStanding,
    gc: u8,
    seals: i32,
    officer_quest_done: bool,
) -> PromotionOutcome {
    let rank = spec_rank_in(s, gc);
    if !is_company(gc) || s.gc_current != gc {
        PromotionOutcome::NotEnlisted
    } else if spec_next_rank(rank) is None {
        PromotionOutcome::AtRankCap
    } else if rank == RANK_CORPORAL && !officer_quest_done {
        PromotionOutcome::OfficerQuestIncomplete
    } else if seals < spec_promotion_cost(rank) {
        PromotionOutcome::InsufficientSeals { have: seals, need: spec_promotion_cost(rank) }
    } else {
        PromotionOutcome::Promoted {
            new_rank: spec_next_rank(rank).unwrap(),
            cost: spec_promotion_cost(rank),
        }
    }
}

impl GcStanding {
    /// Not enlisted, Recruit-rank everywhere.
    pub fn new() -> (res: GcStanding)
        ensures
            res == (GcStanding {
                gc_current: 0,
                rank_limsa: RANK_RECRUIT,
                rank_gridania: RANK_RECRUIT,
                rank_uldah: RANK_RECRUIT,
            }),
    {
        GcStanding {
            gc_current: 0,
            rank_limsa: RANK_RECRUIT,
            rank_gridania: RANK_RECRUIT,
            rank_uldah: RANK_RECRUIT,
        }
    }

    /// Rank in company `gc` (0 for a value that is not a company).
    pub fn rank_in(&self, gc: u8) -> (res: u8)
        ensures
            res == spec_rank_in(*self, gc),
    {
        if gc == GC_MAELSTROM {
            self.rank_limsa
        } else if gc == GC_TWIN_ADDER {
            self.rank_gridania
        } else if gc == GC_IMMORTAL_FLAMES {
            self.rank_uldah
        } else {
            0
        }
    }

    /// Records `rank` in company `gc`; a value that is not a company
    /// changes nothing.
    pub fn set_rank(&mut self, gc: u8, rank: u8)
        ensures
            *final(self) == with_rank(*old(self), gc, rank),
    {
        if gc == GC_MAELSTROM {
            self.rank_limsa = rank;
        } else if gc == GC_TWIN_ADDER {
            self.rank_gridania = rank;
        } else if gc == GC_IMMORTAL_FLAMES {
            self.rank_uldah = rank;
        }
    }

    /// Enlists in company `gc` at Recruit rank; the ranks in the other
    /// companies stay. A value that is not a company changes nothing
    /// and returns `false`.
    pub fn join(&mut self, gc: u8) -> (res: bool)
        ensures
            res == is_company(gc),
            res ==> *final(self) == with_rank(
                GcStanding { gc_current: gc, ..*old(self) },
                gc,
                RANK_RECRUIT,
            ),
            !res ==> *final(self) == *old(self),
    {
        if !(gc == GC_MAELSTROM || gc == GC_TWIN_ADDER || gc == GC_IMMORTAL_FLAMES) {
            return false;
        }
        self.gc_current = gc;
        self.set_rank(gc, RANK_RECRUIT);
        true
    }

    /// Decides a promotion in company `gc` for a player holding `seals`
    /// of that company, without changing anything.
    pub fn promotion_outcome(&self, gc: u8, seals: i32, officer_quest_done: bool) -> (res:
        PromotionOutcome)
        ensures
            res == spec_promotion_outcome(*self, gc, seals, officer_quest_done),
    {
        if !(gc == GC_MAELSTROM || gc == GC_TWIN_ADDER || gc == GC_IMMORTAL_FLAMES)
            || self.gc_current != gc {
            return PromotionOutcome::NotEnlisted;
        }
        let rank = self.rank_in(gc);
        let next = match next_rank(rank) {
            Some(n) => n,
            None => {
                return PromotionOutcome::AtRankCap;
            },
        };
        if rank == RANK_CORPORAL && !officer_quest_done {
            return PromotionOutcome::OfficerQuestIncomplete;
        }
        let cost = promotion_cost(rank);
        if seals < cost {
            return PromotionOutcome::InsufficientSeals { have: seals, need: cost };
        }
        PromotionOutcome::Promoted { new_rank: next, cost }
    }

    /// Asks company `gc` for a promotion. On success the rank moves one
    /// rung up and the cost leaves `seals`; any refusal changes nothing.
    pub fn promote(&mut self, gc: u8, seals: &mut i32, officer_quest_done: bool) -> (res:
        PromotionOutcome)
        ensures
            res == spec_promotion_outcome(*old(self), gc, *old(seals), officer_quest_done),
            res matches PromotionOutcome::Promoted { new_rank, cost } ==> *final(self)
                == with_rank(*old(self), gc, new_rank) && *final(seals) == *old(seals) - cost,
            !(res is Promoted) ==> *final(self) == *old(self) && *final(seals) == *old(seals),
    {
        let outcome = self.promotion_outcome(gc, *seals, officer_quest_done);
        match outcome {
            PromotionOutcome::Promoted { new_rank, cost } => {
                self.set_rank(gc, new_rank);
                *seals = *seals - cost;
            },
            _ => {},
        }
        outcome
    }
}


/// A promotion takes the player exactly one rung up the ladder, costs a
/// positive number of seals, and never leaves the balance negative.
pub proof fn law_promotion_climbs_one_rung(s: GcStanding, gc: u8, seals: i32, officer_quest_done: bool)
    ensures
        spec_promotion_outcome(s, gc, seals, officer_quest_done) matches PromotionOutcome::Promoted {
            new_rank,
            cost,
        } ==> rank_index(new_rank) == rank_index(spec_rank_in(s, gc)) + 1 && 0 < cost <= seals,
{
    let rank = spec_rank_in(s, gc);
    let i = rank_index(rank);
    if 0 <= i < 9 {
        assert(rank_ladder() =~= seq![127u8, 11u8, 13u8, 15u8, 17u8, 21u8, 23u8, 25u8, 27u8, 31u8]);
        assert(promotion_costs() =~= seq![100i32, 100, 500, 1000, 2500, 5000, 7500, 10000, 15000, 0]);
        lemma_rank_index(rank_ladder()[i + 1], i + 1);
    }
}

/// No Corporal becomes a Sergeant without the officer quest, whatever
/// their seal balance.
pub proof fn law_officer_quest_gates_sergeant(s: GcStanding, gc: u8, seals: i32)
    requires
        spec_rank_in(s, gc) == RANK_CORPORAL,
    ensures
        !(spec_promotion_outcome(s, gc, seals, false) is Promoted),
{
}

/// Earned seals never lift a balance past the cap of the member's rank,
/// and a player who serves no company earns none.
pub proof fn law_seal_deposit_respects_cap(gc_current: u8, rank: u8, balance: i32, reward: i32)
    ensures
        0 <= spec_seal_deposit(gc_current, rank, balance, reward),
        spec_seal_deposit(gc_current, rank, balance, reward) <= if reward > 0 { reward as int } else { 0 },
        balance <= spec_rank_seal_cap(rank) ==> balance + spec_seal_deposit(gc_current, rank, balance, reward)
            <= spec_rank_seal_cap(rank),
        !is_company(gc_current) ==> spec_seal_deposit(gc_current, rank, balance, reward) == 0,
{
}

/// Every member of one of the three companies earns seals while under
/// the cap: the whole reward, or what is left to the cap when the
/// reward would pass it; at or over the cap, or outside the three
/// companies, nothing.
pub proof fn law_enlisted_member_earns_seals(gc_current: u8, rank: u8, balance: i32, reward: i32)
    ensures
        GC_MAELSTROM == 1 && GC_TWIN_ADDER == 2 && GC_IMMORTAL_FLAMES == 3,
        1 <= gc_current <= 3 && reward > 0 && balance < spec_rank_seal_cap(rank) ==> spec_seal_deposit(
            gc_current,
            rank,
            balance,
            reward,
        ) == if reward <= spec_rank_seal_cap(rank) - balance {
            reward as int
        } else {
            spec_rank_seal_cap(rank) - balance
        },
        !(1 <= gc_current <= 3) || reward <= 0 || balance >= spec_rank_seal_cap(rank) ==> spec_seal_deposit(
            gc_current,
            rank,
            balance,
            reward,
        ) == 0,
{
}

/// Leve seals climb by 100 a star from 150 for one star to 550 for
/// five; kills pay one seal per enemy level.
pub proof fn law_seal_reward_tables(difficulty: u8, enemy_level: i16)
    ensures
        spec_leve_completion_seal_reward(1) == 150,
        1 <= difficulty < 5 ==> spec_leve_completion_seal_reward((difficulty + 1) as u8)
            == spec_leve_completion_seal_reward(difficulty) + 100,
        (difficulty == 0 || difficulty > 5) ==> spec_leve_completion_seal_reward(difficulty) == 0,
        enemy_level > 0 ==> spec_kill_seal_reward(enemy_level) == enemy_level,
        enemy_level <= 0 ==> spec_kill_seal_reward(enemy_level) == 0,
{
}

} // verus!
