//! Retainers: the roster of retainers a character has hired, and the
//! actor id under which a summoned retainer appears in a zone.

use vstd::prelude::*;

verus! {

/// Kind nibble of a retainer actor id (bits 28..32).
pub const RETAINER_ACTOR_KIND: u32 = 4;

/// Bit that marks an actor id as allocated for a player's retainer.
pub const RETAINER_LOCAL_FLAG: u32 = 0x4_0000;

/// Mask of the zone id bits an actor id carries.
pub const ACTOR_ZONE_MASK: u32 = 0x1FF;

/// Mask of the player id bits an actor id carries.
pub const ACTOR_LOCAL_MASK: u32 = 0x3_FFFF;

/// `(4 << 28) | ((zone & 0x1FF) << 19) | 0x40000 | (player & 0x3FFFF)`.
pub open spec fn spec_retainer_actor_id(zone_id: u32, player_id: u32) -> u32 {
    (RETAINER_ACTOR_KIND << 28u32) | ((zone_id & ACTOR_ZONE_MASK) << 19u32) | RETAINER_LOCAL_FLAG
        | (player_id & ACTOR_LOCAL_MASK)
}

/// The actor id of the retainer that player `player_id` summons in zone
/// `zone_id`.
pub fn retainer_actor_id(zone_id: u32, player_id: u32) -> (res: u32)
    ensures
        res == spec_retainer_actor_id(zone_id, player_id),
{
    (RETAINER_ACTOR_KIND << 28u32) | ((zone_id & ACTOR_ZONE_MASK) << 19u32) | RETAINER_LOCAL_FLAG
        | (player_id & ACTOR_LOCAL_MASK)
}

/// A retainer actor id gives back its kind, the zone and the player it
/// was made from (each cut to the bits it keeps); so two players whose
/// ids differ in those bits never share a retainer actor id in a zone.
pub proof fn law_retainer_actor_id_fields(zone_id: u32, player_id: u32, other_player: u32)
    ensures
        spec_retainer_actor_id(zone_id, player_id) >> 28u32 == RETAINER_ACTOR_KIND,
        (spec_retainer_actor_id(zone_id, player_id) >> 19u32) & ACTOR_ZONE_MASK == zone_id
            & ACTOR_ZONE_MASK,
        spec_retainer_actor_id(zone_id, player_id) & RETAINER_LOCAL_FLAG == RETAINER_LOCAL_FLAG,
        spec_retainer_actor_id(zone_id, player_id) & ACTOR_LOCAL_MASK == player_id
            & ACTOR_LOCAL_MASK,
        player_id & ACTOR_LOCAL_MASK != other_player & ACTOR_LOCAL_MASK ==> spec_retainer_actor_id(
            zone_id,
            player_id,
        ) != spec_retainer_actor_id(zone_id, other_player),
{
    assert(((4u32 << 28u32) | ((zone_id & 0x1FFu32) << 19u32) | 0x4_0000u32 | (player_id
        & 0x3_FFFFu32)) >> 28u32 == 4u32) by (bit_vector);
    assert((((4u32 << 28u32) | ((zone_id & 0x1FFu32) << 19u32) | 0x4_0000u32 | (player_id
        & 0x3_FFFFu32)) >> 19u32) & 0x1FFu32 == zone_id & 0x1FFu32) by (bit_vector);
    assert(((4u32 << 28u32) | ((zone_id & 0x1FFu32) << 19u32) | 0x4_0000u32 | (player_id
        & 0x3_FFFFu32)) & 0x4_0000u32 == 0x4_0000u32) by (bit_vector);
    assert(((4u32 << 28u32) | ((zone_id & 0x1FFu32) << 19u32) | 0x4_0000u32 | (player_id
        & 0x3_FFFFu32)) & 0x3_FFFFu32 == player_id & 0x3_FFFFu32) by (bit_vector);
    assert(((4u32 << 28u32) | ((zone_id & 0x1FFu32) << 19u32) | 0x4_0000u32 | (other_player
        & 0x3_FFFFu32)) & 0x3_FFFFu32 == other_player & 0x3_FFFFu32) by (bit_vector);
}

/// A retainer on a character's roster.
pub struct HiredRetainer {
    /// Catalog id of the retainer.
    pub retainer_id: u32,
    /// Name its owner gave it; `None` keeps the catalog name.
    pub custom_name: Option<String>,
}

/// The retainers one character has hired, in the order they were hired.
pub struct RetainerRoster {
    pub hired: Vec<HiredRetainer>,
}

/// The retainer ids of a roster, in order.
pub open spec fn roster_ids(hired: Seq<HiredRetainer>) -> Seq<u32> {
    hired.map_values(|h: HiredRetainer| h.retainer_id)
}

/// Whether retainer `id` is on the roster.
pub open spec fn roster_has(hired: Seq<HiredRetainer>, id: u32) -> bool {
    exists|i: int| 0 <= i < hired.len() && #[trigger] hired[i].retainer_id == id
}

/// No retainer is hired twice.
pub open spec fn roster_distinct(hired: Seq<HiredRetainer>) -> bool {
    forall|i: int, j: int|
        0 <= i < hired.len() && 0 <= j < hired.len() && i != j ==> #[trigger] hired[i].retainer_id
            != #[trigger] hired[j].retainer_id
}

/// The entry a newly hired retainer gets.
pub open spec fn fresh_hire(id: u32) -> HiredRetainer {
    HiredRetainer { retainer_id: id, custom_name: None }
}

/// The name a hired retainer goes by: its own, else the catalog's.
pub open spec fn display_name(h: HiredRetainer, catalog_name: Seq<char>) -> Seq<char> {
    match h.custom_name {
        Some(c) => c@,
        None => catalog_name,
    }
}

/// The retainer at 1-based position `index`, if there is one.
pub open spec fn roster_nth(hired: Seq<HiredRetainer>, index: u32) -> Option<u32> {
    if 1 <= index <= hired.len() {
        Some(hired[index - 1].retainer_id)
    } else {
        None
    }
}

impl RetainerRoster {
    /// No retainer is hired twice.
    pub open spec fn wf(&self) -> bool {
        roster_distinct(self.hired@)
    }

    /// A roster with nobody on it.
    pub fn new() -> (r: Self)
        ensures
            r.wf(),
            r.hired@.len() == 0,
    {
        RetainerRoster { hired: Vec::new() }
    }

    /// Number of retainers hired.
    pub fn len(&self) -> (n: usize)
        ensures
            n == self.hired@.len(),
    {
        self.hired.len()
    }

    /// Position of retainer `id` on the roster.
    pub fn position(&self, id: u32) -> (res: Option<usize>)
        requires
            self.wf(),
        ensures
            res is None <==> !roster_has(self.hired@, id),
            res matches Some(i) ==> i < self.hired@.len() && self.hired@[i as int].retainer_id == id,
    {
        let mut i: usize = 0;
        while i < self.hired.len()
            invariant
                i <= self.hired@.len(),
                forall|j: int| 0 <= j < i ==> #[trigger] self.hired@[j].retainer_id != id,
            decreases self.hired@.len() - i,
        {
            if self.hired[i].retainer_id == id {
                return Some(i);
            }
            i = i + 1;
        }
        None
    }

    /// Whether retainer `id` is hired.
    pub fn is_hired(&self, id: u32) -> (res: bool)
        requires
            self.wf(),
        ensures
            res == roster_has(self.hired@, id),
    {
        self.position(id).is_some()
    }

    /// Hires retainer `id` at the end of the roster. Hiring one already
    /// hired changes nothing; the result says whether it was new.
    pub fn hire(&mut self, id: u32) -> (fresh: bool)
        requires
            old(self).wf(),
        ensures
            final(self).wf(),
            fresh == !roster_has(old(self).hired@, id),
            fresh ==> final(self).hired@ == old(self).hired@.push(fresh_hire(id)),
            !fresh ==> final(self).hired@ == old(self).hired@,
    {
        if self.is_hired(id) {
            return false;
        }
        self.hired.push(HiredRetainer { retainer_id: id, custom_name: None });
        proof {
            let s = self.hired@;
            assert forall|i: int, j: int|
                0 <= i < s.len() && 0 <= j < s.len() && i != j implies #[trigger] s[i].retainer_id
                != #[trigger] s[j].retainer_id by {
                if i < s.len() - 1 && j < s.len() - 1 {
                    assert(s[i] == old(self).hired@[i] && s[j] == old(self).hired@[j]);
                } else if i < s.len() - 1 {
                    assert(s[i] == old(self).hired@[i]);
                } else {
                    assert(s[j] == old(self).hired@[j]);
                }
            }
        }
        true
    }

    /// Dismisses retainer `id`; those hired after it move up one place.
    /// The result says whether it was on the roster.
    pub fn dismiss(&mut self, id: u32) -> (removed: bool)
        requires
            old(self).wf(),
        ensures
            final(self).wf(),
            removed == roster_has(old(self).hired@, id),
            removed ==> exists|i: int|
                0 <= i < old(self).hired@.len() && #[trigger] old(self).hired@[i].retainer_id == id
                    && final(self).hired@ == old(self).hired@.remove(i),
            !removed ==> final(self).hired@ == old(self).hired@,
            !roster_has(final(self).hired@, id),
    {
        match self.position(id) {
            None => false,
            Some(i) => {
                let ghost before = self.hired@;
                self.hired.remove(i);
                proof {
                    let s = self.hired@;
                    assert(s == before.remove(i as int));
                    assert forall|a: int, b: int|
                        0 <= a < s.len() && 0 <= b < s.len() && a != b implies #[trigger] s[a].retainer_id
                        != #[trigger] s[b].retainer_id by {
                        let a0 = if a < i { a } else { a + 1 };
                        let b0 = if b < i { b } else { b + 1 };
                        assert(s[a] == before[a0] && s[b] == before[b0]);
                    }
                    if roster_has(s, id) {
                        let k = choose|k: int| 0 <= k < s.len() && #[trigger] s[k].retainer_id == id;
                        let k0 = if k < i { k } else { k + 1 };
                        assert(s[k] == before[k0]);
                    }
                }
                true
            },
        }
    }

    /// The retainer at 1-based position `index` on the roster.
    pub fn nth(&self, index: u32) -> (res: Option<u32>)
        ensures
            res == roster_nth(self.hired@, index),
    {
        if index == 0 || index as usize > self.hired.len() {
            None
        } else {
            Some(self.hired[(index - 1) as usize].retainer_id)
        }
    }

    /// Gives hired retainer `id` the name `name`. A retainer not on the
    /// roster is left alone; the result says whether one was renamed.
    pub fn rename(&mut self, id: u32, name: String) -> (renamed: bool)
        requires
            old(self).wf(),
        ensures
            final(self).wf(),
            renamed == roster_has(old(self).hired@, id),
            renamed ==> exists|i: int|
                0 <= i < old(self).hired@.len() && #[trigger] old(self).hired@[i].retainer_id == id
                    && final(self).hired@ == old(self).hired@.update(
                    i,
                    HiredRetainer { retainer_id: id, custom_name: Some(name) },
                ),
            !renamed ==> final(self).hired@ == old(self).hired@,
    {
        match self.position(id) {
            None => false,
            Some(i) => {
                let ghost before = self.hired@;
                self.hired.set(i, HiredRetainer { retainer_id: id, custom_name: Some(name) });
                proof {
                    let s = self.hired@;
                    assert forall|a: int, b: int|
                        0 <= a < s.len() && 0 <= b < s.len() && a != b implies #[trigger] s[a].retainer_id
                        != #[trigger] s[b].retainer_id by {
                        assert(s[a].retainer_id == before[a].retainer_id);
                        assert(s[b].retainer_id == before[b].retainer_id);
                    }
                }
                true
            },
        }
    }

    /// The name retainer `id` goes by: the one its owner gave it, else
    /// `catalog_name`; `None` when it is not hired.
    pub fn name_of(&self, id: u32, catalog_name: &str) -> (res: Option<String>)
        requires
            self.wf(),
        ensures
            !roster_has(self.hired@, id) ==> res is None,
            roster_has(self.hired@, id) ==> exists|i: int|
                0 <= i < self.hired@.len() && #[trigger] self.hired@[i].retainer_id == id && res is Some
                    && res.unwrap()@ == display_name(self.hired@[i], catalog_name@),
    {
        match self.position(id) {
            None => None,
            Some(i) => {
                let custom = &self.hired[i].custom_name;
                match custom {
                    Some(c) => Some(c.clone()),
                    None => Some(catalog_name.to_owned()),
                }
            },
        }
    }
}

/// What the roster keeps across hire, dismiss and lookup: a hire puts
/// the retainer last, where `nth` finds it, and leaves every earlier
/// position as it was; the roster stays free of repeats (so hiring it
/// again changes nothing); dismissing the retainer just hired gives
/// back the roster as it was.
pub proof fn law_roster_hire_dismiss(hired: Seq<HiredRetainer>, id: u32)
    requires
        roster_distinct(hired),
        !roster_has(hired, id),
        hired.len() < u32::MAX,
    ensures
        roster_nth(hired.push(fresh_hire(id)), (hired.len() + 1) as u32) == Some(id),
        roster_has(hired.push(fresh_hire(id)), id),
        roster_distinct(hired.push(fresh_hire(id))),
        hired.push(fresh_hire(id)).remove(hired.len() as int) == hired,
        forall|k: u32| 1 <= k <= hired.len() ==> roster_nth(hired.push(fresh_hire(id)), k) == roster_nth(hired, k),
{
    let s = hired.push(fresh_hire(id));
    assert(s[hired.len() as int].retainer_id == id);
    assert(s.remove(hired.len() as int) =~= hired);
    assert forall|i: int, j: int|
        0 <= i < s.len() && 0 <= j < s.len() && i != j implies #[trigger] s[i].retainer_id
        != #[trigger] s[j].retainer_id by {
        if i < hired.len() && j < hired.len() {
            assert(s[i] == hired[i] && s[j] == hired[j]);
        } else if i < hired.len() {
            assert(s[i] == hired[i]);
        } else {
            assert(s[j] == hired[j]);
        }
    }
}

} // verus!
