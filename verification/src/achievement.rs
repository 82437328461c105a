//! Achievements: what a character has earned, its point total, and the
//! latest earned ones the client shows.

use vstd::prelude::*;

verus! {

/// Number of latest achievements the client lists.
pub const LATEST_ACHIEVEMENTS: usize = 5;

/// One earned achievement.
#[derive(Debug, Clone, Copy, PartialEq, Eq)]
pub struct EarnedAchievement {
    pub id: u32,
    /// Points it was worth.
    pub points: u32,
}

/// A character's achievements, in the order they were earned.
pub struct AchievementLog {
    pub earned: Vec<EarnedAchievement>,
    /// Points of all earned achievements (held at `u32::MAX`).
    pub points: u32,
}

/// Whether achievement `id` is in the log.
pub open spec fn has_earned(es: Seq<EarnedAchievement>, id: u32) -> bool {
    exists|i: int| 0 <= i < es.len() && #[trigger] es[i].id == id
}

/// No achievement is earned twice.
pub open spec fn earned_distinct(es: Seq<EarnedAchievement>) -> bool {
    forall|i: int, j: int|
        0 <= i < es.len() && 0 <= j < es.len() && i != j ==> #[trigger] es[i].id != #[trigger] es[j].id
}

/// `a + b`, held at `u32::MAX`.
pub open spec fn points_after(a: u32, b: u32) -> u32 {
    if a + b > u32::MAX {
        u32::MAX
    } else {
        (a + b) as u32
    }
}

/// The ids of the latest achievements, newest first, at most five.
pub open spec fn latest_ids(es: Seq<EarnedAchievement>) -> Seq<u32> {
    let n = if es.len() < LATEST_ACHIEVEMENTS {
        es.len() as int
    } else {
        LATEST_ACHIEVEMENTS as int
    };
    Seq::new(n as nat, |k: int| es[es.len() - 1 - k].id)
}

impl AchievementLog {
    /// No achievement is earned twice.
    pub open spec fn wf(&self) -> bool {
        earned_distinct(self.earned@)
    }

    /// A log with nothing earned.
    pub fn new() -> (r: Self)
        ensures
            r.wf(),
            r.earned@.len() == 0,
            r.points == 0,
    {
        AchievementLog { earned: Vec::new(), points: 0 }
    }

    /// Whether achievement `id` is earned.
    pub fn has(&self, id: u32) -> (res: bool)
        ensures
            res == has_earned(self.earned@, id),
    {
        let mut i: usize = 0;
        while i < self.earned.len()
            invariant
                i <= self.earned@.len(),
                forall|j: int| 0 <= j < i ==> #[trigger] self.earned@[j].id != id,
            decreases self.earned@.len() - i,
        {
            if self.earned[i].id == id {
                return true;
            }
            i = i + 1;
        }
        false
    }

    /// Earns achievement `id`, worth `points`. Earning one already
    /// earned changes nothing; the result says whether it was new.
    pub fn earn(&mut self, id: u32, points: u32) -> (fresh: bool)
        requires
            old(self).wf(),
        ensures
            final(self).wf(),
            fresh == !has_earned(old(self).earned@, id),
            fresh ==> final(self).earned@ == old(self).earned@.push(EarnedAchievement { id, points })
                && final(self).points == points_after(old(self).points, points),
            !fresh ==> final(self).earned@ == old(self).earned@ && final(self).points == old(self).points,
    {
        if self.has(id) {
            return false;
        }
        let ghost before = self.earned@;
        self.earned.push(EarnedAchievement { id, points });
        self.points = if self.points > u32::MAX - points {
            u32::MAX
        } else {
            self.points + points
        };
        proof {
            let s = self.earned@;
            assert forall|i: int, j: int|
                0 <= i < s.len() && 0 <= j < s.len() && i != j implies #[trigger] s[i].id != #[trigger] s[j].id by {
                if i < before.len() {
                    assert(s[i] == before[i]);
                }
                if j < before.len() {
                    assert(s[j] == before[j]);
                }
            }
        }
        true
    }

    /// The latest earned achievements, newest first, at most five.
    pub fn latest(&self) -> (res: Vec<u32>)
        ensures
            res@ == latest_ids(self.earned@),
    {
        let n = self.earned.len();
        let take = if n < LATEST_ACHIEVEMENTS {
            n
        } else {
            LATEST_ACHIEVEMENTS
        };
        let mut out: Vec<u32> = Vec::new();
        let mut k: usize = 0;
        while k < take
            invariant
                k <= take,
                n == self.earned@.len(),
                take <= n,
                take == latest_ids(self.earned@).len(),
                out@ == latest_ids(self.earned@).take(k as int),
            decreases take - k,
        {
            out.push(self.earned[n - 1 - k].id);
            k = k + 1;
            assert(out@ =~= latest_ids(self.earned@).take(k as int));
        }
        assert(out@ =~= latest_ids(self.earned@));
        out
    }
}

/// Earning is once per achievement: once earned, an achievement is in
/// the log, so a second `earn` of it changes nothing; and the one just
/// earned heads the latest list, which never runs past five.
pub proof fn law_earn_once(es: Seq<EarnedAchievement>, id: u32, points: u32)
    requires
        earned_distinct(es),
        !has_earned(es, id),
    ensures
        has_earned(es.push(EarnedAchievement { id, points }), id),
        latest_ids(es.push(EarnedAchievement { id, points }))[0] == id,
        latest_ids(es.push(EarnedAchievement { id, points })).len() <= LATEST_ACHIEVEMENTS,
{
    let s = es.push(EarnedAchievement { id, points });
    assert(s[es.len() as int].id == id);
}

} // verus!
