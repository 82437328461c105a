//! Instanced content: the roster of a battle, and the signal that the
//! battle is complete when its last hostile falls.

use vstd::prelude::*;

verus! {

/// One actor of a content battle.
#[derive(Debug, Clone, Copy, PartialEq, Eq)]
pub struct RosterMember {
    pub actor_id: u32,
    /// Whether the player has to defeat it.
    pub hostile: bool,
    pub alive: bool,
}

/// The actors taking part in a content battle.
pub struct ContentRoster {
    pub members: Vec<RosterMember>,
}

/// Number of hostiles still alive.
pub open spec fn live_hostiles(ms: Seq<RosterMember>) -> nat
    decreases ms.len(),
{
    if ms.len() == 0 {
        0
    } else {
        live_hostiles(ms.drop_last()) + if ms.last().hostile && ms.last().alive {
            1nat
        } else {
            0nat
        }
    }
}

/// Whether member `i` is the first with actor id `id`.
pub open spec fn is_first_member(ms: Seq<RosterMember>, id: u32, i: int) -> bool {
    &&& 0 <= i < ms.len()
    &&& ms[i].actor_id == id
    &&& forall|j: int| 0 <= j < i ==> #[trigger] ms[j].actor_id != id
}

/// Whether actor `id` is on the roster.
pub open spec fn has_member(ms: Seq<RosterMember>, id: u32) -> bool {
    exists|i: int| 0 <= i < ms.len() && #[trigger] ms[i].actor_id == id
}

/// The roster once member `i` is dead.
pub open spec fn mark_dead(ms: Seq<RosterMember>, i: int) -> Seq<RosterMember> {
    ms.update(i, RosterMember { alive: false, ..ms[i] })
}

/// Whether the death of member `i` signals the battle complete: it was
/// a live hostile, and none is left alive after it.
pub open spec fn completes_battle(ms: Seq<RosterMember>, i: int) -> bool {
    ms[i].hostile && ms[i].alive && live_hostiles(mark_dead(ms, i)) == 0
}

/// A member's death takes one live hostile off the count if it was one,
/// and none otherwise.
proof fn lemma_mark_dead_count(ms: Seq<RosterMember>, i: int)
    requires
        0 <= i < ms.len(),
    ensures
        live_hostiles(mark_dead(ms, i)) + (if ms[i].hostile && ms[i].alive {
            1int
        } else {
            0int
        }) == live_hostiles(ms),
    decreases ms.len(),
{
    let u = mark_dead(ms, i);
    if i == ms.len() - 1 {
        assert(u.drop_last() =~= ms.drop_last());
    } else {
        assert(u.drop_last() =~= mark_dead(ms.drop_last(), i));
        lemma_mark_dead_count(ms.drop_last(), i);
    }
}

impl ContentRoster {
    /// Number of hostiles still alive.
    pub fn live_hostile_count(&self) -> (n: usize)
        ensures
            n == live_hostiles(self.members@),
    {
        let ghost ms = self.members@;
        let mut n: usize = 0;
        let mut k: usize = 0;
        assert(ms.take(0) =~= Seq::<RosterMember>::empty());
        while k < self.members.len()
            invariant
                k <= ms.len(),
                ms == self.members@,
                n == live_hostiles(ms.take(k as int)),
                n <= k,
            decreases ms.len() - k,
        {
            assert(ms.take(k + 1).drop_last() =~= ms.take(k as int));
            let m = self.members[k];
            if m.hostile && m.alive {
                n = n + 1;
            }
            k = k + 1;
        }
        assert(ms.take(ms.len() as int) =~= ms);
        n
    }

    /// Actor `actor_id` dies, whoever dealt the blow. The result says
    /// whether this death signals the battle complete: the actor was
    /// the last live hostile. An actor not on the roster changes
    /// nothing and signals nothing.
    pub fn on_death(&mut self, actor_id: u32) -> (complete: bool)
        ensures
            !has_member(old(self).members@, actor_id) ==> !complete && final(self).members@ == old(
                self,
            ).members@,
            has_member(old(self).members@, actor_id) ==> exists|i: int|
                #![trigger is_first_member(old(self).members@, actor_id, i)]
                is_first_member(old(self).members@, actor_id, i) && final(self).members@ == mark_dead(
                    old(self).members@,
                    i,
                ) && complete == completes_battle(old(self).members@, i),
    {
        let mut i: usize = 0;
        while i < self.members.len()
            invariant
                i <= self.members@.len(),
                self.members@ == old(self).members@,
                forall|j: int| 0 <= j < i ==> #[trigger] self.members@[j].actor_id != actor_id,
            decreases self.members@.len() - i,
        {
            if self.members[i].actor_id == actor_id {
                let m = self.members[i];
                let was_live_hostile = m.hostile && m.alive;
                self.members.set(i, RosterMember { alive: false, ..m });
                proof {
                    assert(self.members@ =~= mark_dead(old(self).members@, i as int));
                    assert(is_first_member(old(self).members@, actor_id, i as int));
                }
                if !was_live_hostile {
                    return false;
                }
                let left = self.live_hostile_count();
                return left == 0;
            }
            i = i + 1;
        }
        false
    }
}

/// The battle is signalled complete once: a death that signals it
/// leaves no live hostile, and with no live hostile left no further
/// death signals anything.
pub proof fn law_battle_completes_once(ms: Seq<RosterMember>, i: int, j: int)
    requires
        0 <= i < ms.len(),
        0 <= j < ms.len(),
    ensures
        completes_battle(ms, i) ==> live_hostiles(mark_dead(ms, i)) == 0,
        completes_battle(ms, i) ==> !completes_battle(mark_dead(ms, i), j),
        live_hostiles(ms) == 0 ==> !completes_battle(ms, j),
        live_hostiles(ms) == 1 && ms[i].hostile && ms[i].alive ==> completes_battle(ms, i),
{
    lemma_mark_dead_count(ms, i);
    lemma_mark_dead_count(ms, j);
    lemma_mark_dead_count(mark_dead(ms, i), j);
}

} // verus!
