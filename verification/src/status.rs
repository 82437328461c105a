//! Status effects on an actor: adding under the overwrite rule, and
//! the purges on death, logout and zoning.

use vstd::prelude::*;

verus! {

/// Most effects an actor carries at once.
pub const MAX_STATUS_EFFECTS: usize = 20;

/// The effect ends when its bearer dies.
pub const LOSE_ON_DEATH: u32 = 1 << 1;

/// The effect ends when its bearer changes zone.
pub const LOSE_ON_ZONING: u32 = 1 << 2;

/// The effect ends when its bearer logs out.
pub const LOSE_ON_LOGOUT: u32 = 1 << 5;

/// What happens when an effect is applied to an actor that already has it.
#[derive(Debug, Clone, Copy, PartialEq, Eq)]
pub enum StatusOverwrite {
    /// The new application is refused.
    Never,
    /// The new application replaces the old.
    Always,
}

/// One effect on an actor.
#[derive(Debug, Clone, Copy, PartialEq, Eq)]
pub struct StatusEffect {
    pub id: u32,
    /// Actor that applied it.
    pub source_actor_id: u32,
    /// Seconds it lasts.
    pub duration: u32,
    pub tier: u8,
    /// `LOSE_ON_*` bits.
    pub flags: u32,
    pub overwrite: StatusOverwrite,
}

/// The effects an actor carries.
pub struct StatusContainer {
    pub effects: Vec<StatusEffect>,
}

/// Whether effect `i` is the first with id `id`.
pub open spec fn is_first_effect(es: Seq<StatusEffect>, id: u32, i: int) -> bool {
    &&& 0 <= i < es.len()
    &&& es[i].id == id
    &&& forall|j: int| 0 <= j < i ==> #[trigger] es[j].id != id
}

/// Whether some effect has id `id`.
pub open spec fn has_effect(es: Seq<StatusEffect>, id: u32) -> bool {
    exists|i: int| 0 <= i < es.len() && #[trigger] es[i].id == id
}

/// Whether an effect ends under the purge for `mask`.
pub open spec fn purged_by(e: StatusEffect, mask: u32) -> bool {
    e.flags & mask != 0
}

/// The effects a purge for `mask` keeps, in order.
pub open spec fn kept_after_purge(es: Seq<StatusEffect>, mask: u32) -> Seq<StatusEffect>
    decreases es.len(),
{
    if es.len() == 0 {
        Seq::empty()
    } else {
        kept_after_purge(es.drop_last(), mask) + if purged_by(es.last(), mask) {
            Seq::empty()
        } else {
            seq![es.last()]
        }
    }
}

/// The ids of the effects a purge for `mask` ends, in order.
pub open spec fn ids_purged(es: Seq<StatusEffect>, mask: u32) -> Seq<u32>
    decreases es.len(),
{
    if es.len() == 0 {
        Seq::empty()
    } else {
        ids_purged(es.drop_last(), mask) + if purged_by(es.last(), mask) {
            seq![es.last().id]
        } else {
            Seq::empty()
        }
    }
}

impl StatusContainer {
    /// No effects.
    pub fn new() -> (res: StatusContainer)
        ensures
            res.effects@.len() == 0,
    {
        StatusContainer { effects: Vec::new() }
    }

    /// Position of the first effect with id `id`.
    pub fn find(&self, id: u32) -> (res: Option<usize>)
        ensures
            res is None <==> !has_effect(self.effects@, id),
            res matches Some(i) ==> is_first_effect(self.effects@, id, i as int),
    {
        let mut i: usize = 0;
        while i < self.effects.len()
            invariant
                i <= self.effects@.len(),
                forall|j: int| 0 <= j < i ==> #[trigger] self.effects@[j].id != id,
            decreases self.effects@.len() - i,
        {
            if self.effects[i].id == id {
                return Some(i);
            }
            i = i + 1;
        }
        None
    }

    /// Whether the actor carries effect `id`.
    pub fn has(&self, id: u32) -> (res: bool)
        ensures
            res == has_effect(self.effects@, id),
    {
        self.find(id).is_some()
    }

    /// The effect `id`, if the actor carries it.
    pub fn get(&self, id: u32) -> (res: Option<&StatusEffect>)
        ensures
            res is None <==> !has_effect(self.effects@, id),
            res matches Some(e) ==> exists|i: int| is_first_effect(self.effects@, id, i) && *e == self.effects@[i],
    {
        match self.find(id) {
            Some(i) => Some(&self.effects[i]),
            None => None,
        }
    }

    /// Applies an effect. An effect the actor already has is replaced when
    /// the new one's rule is `Always` and refused when it is `Never`; a new
    /// effect is added unless the actor already carries the maximum.
    /// Returns whether the effect landed.
    pub fn add(&mut self, effect: StatusEffect) -> (res: bool)
        ensures
            has_effect(old(self).effects@, effect.id) ==> {
                &&& res == (effect.overwrite == StatusOverwrite::Always)
                &&& res ==> exists|i: int|
                    is_first_effect(old(self).effects@, effect.id, i) && final(self).effects@
                        == old(self).effects@.update(i, effect)
                &&& !res ==> final(self).effects@ == old(self).effects@
            },
            !has_effect(old(self).effects@, effect.id) ==> {
                &&& res == (old(self).effects@.len() < MAX_STATUS_EFFECTS)
                &&& res ==> final(self).effects@ == old(self).effects@.push(effect)
                &&& !res ==> final(self).effects@ == old(self).effects@
            },
    {
        match self.find(effect.id) {
            Some(i) => {
                match effect.overwrite {
                    StatusOverwrite::Always => {
                        self.effects.set(i, effect);
                        true
                    },
                    StatusOverwrite::Never => false,
                }
            },
            None => {
                if self.effects.len() < MAX_STATUS_EFFECTS {
                    self.effects.push(effect);
                    true
                } else {
                    false
                }
            },
        }
    }

    /// Ends effect `id`; returns whether the actor had it.
    pub fn remove(&mut self, id: u32) -> (res: bool)
        ensures
            res == has_effect(old(self).effects@, id),
            res ==> exists|i: int|
                is_first_effect(old(self).effects@, id, i) && final(self).effects@ == old(self).effects@.remove(i),
            !res ==> final(self).effects@ == old(self).effects@,
    {
        match self.find(id) {
            Some(i) => {
                self.effects.remove(i);
                true
            },
            None => false,
        }
    }

    /// Ends every effect whose flags meet `mask` (for example
    /// `LOSE_ON_DEATH` when the bearer dies); returns their ids, in order.
    pub fn purge(&mut self, mask: u32) -> (res: Vec<u32>)
        ensures
            final(self).effects@ == kept_after_purge(old(self).effects@, mask),
            res@ == ids_purged(old(self).effects@, mask),
    {
        let mut kept: Vec<StatusEffect> = Vec::new();
        let mut gone: Vec<u32> = Vec::new();
        let ghost es = self.effects@;
        let mut k: usize = 0;
        assert(es.take(0) =~= Seq::<StatusEffect>::empty());
        while k < self.effects.len()
            invariant
                k <= es.len(),
                self.effects@ == es,
                kept@ == kept_after_purge(es.take(k as int), mask),
                gone@ == ids_purged(es.take(k as int), mask),
            decreases es.len() - k,
        {
            assert(es.take(k + 1).drop_last() =~= es.take(k as int));
            let e = self.effects[k];
            if e.flags & mask != 0 {
                gone.push(e.id);
            } else {
                kept.push(e);
            }
            k = k + 1;
        }
        assert(es.take(es.len() as int) =~= es);
        self.effects = kept;
        gone
    }
}

/// A purge ends exactly the flagged effects: every effect kept lacks the
/// flag, and the effects kept and the effects ended together are all
/// the effects there were.
pub proof fn law_purge_partitions(es: Seq<StatusEffect>, mask: u32)
    ensures
        forall|i: int| 0 <= i < kept_after_purge(es, mask).len() ==> !purged_by(#[trigger] kept_after_purge(es, mask)[i], mask),
        kept_after_purge(es, mask).len() + ids_purged(es, mask).len() == es.len(),
    decreases es.len(),
{
    if es.len() > 0 {
        law_purge_partitions(es.drop_last(), mask);
        let k0 = kept_after_purge(es.drop_last(), mask);
        let k = kept_after_purge(es, mask);
        assert forall|i: int| 0 <= i < k.len() implies !purged_by(#[trigger] k[i], mask) by {
            if i < k0.len() {
                assert(k[i] == k0[i]);
            }
        }
    }
}

} // verus!
