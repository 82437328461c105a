//! Passive (local) guildleves: a crafting leve whose progress lives in
//! the counters and flags of its quest.

use vstd::prelude::*;
use crate::quest::{Quest, BAND_COUNTER, counter, difficulty_band, flag_bit, with_counter};

verus! {

/// First id of a passive guildleve.
pub const LOCAL_LEVE_ID_MIN: u32 = 120_001;

/// Last id of a passive guildleve.
pub const LOCAL_LEVE_ID_MAX: u32 = 120_452;

/// Quest counter that holds the number of items crafted.
pub const CRAFTED_COUNTER: usize = 0;

/// Quest counter that holds the chosen difficulty band (0..=3).
pub const DIFFICULTY_COUNTER: usize = BAND_COUNTER;

/// Quest counter that holds the number of attempts made.
pub const ATTEMPT_COUNTER: usize = 2;

/// Quest flag set once the leve's materials were handed over.
pub const HAS_MATERIALS_FLAG_BIT: u8 = 2;

/// Catalog row of a passive guildleve; the arrays are indexed by
/// difficulty band.
#[derive(Debug, Clone, Copy, PartialEq, Eq)]
pub struct PassiveGuildleveData {
    pub id: u32,
    pub plate_id: u32,
    pub border_id: u32,
    pub recommended_class: u32,
    pub issuing_location: u32,
    pub leve_location: u32,
    pub delivery_display_name: u32,
    pub objective_item_id: [u32; 4],
    pub objective_quantity: [u32; 4],
    pub number_of_attempts: [u32; 4],
    pub recommended_level: [u32; 4],
    pub reward_item_id: [u32; 4],
    pub reward_quantity: [u32; 4],
}

/// A counter raised by `n`, stopping at `u16::MAX`.
pub open spec fn sat_add_u16(a: u16, n: int) -> u16 {
    if a + n > u16::MAX {
        u16::MAX
    } else {
        (a + n) as u16
    }
}

/// Materials left for further attempts on a quest under a catalog
/// row: the attempts its band allows minus those made (never below
/// zero), or zero when the materials were not handed over.
pub open spec fn spec_remaining_materials(q: Quest, data: PassiveGuildleveData) -> int {
    if flag_bit(q.flags, HAS_MATERIALS_FLAG_BIT as int) {
        let allowed = data.number_of_attempts@[difficulty_band(q)] as int;
        let made = counter(q, ATTEMPT_COUNTER as int) as int;
        if allowed > made {
            allowed - made
        } else {
            0
        }
    } else {
        0
    }
}

/// The quest after one synthesis attempt: `crafted` items more (none
/// for a failure) and one attempt more, each counter stopping at
/// `u16::MAX`.
pub open spec fn after_attempt(q: Quest, crafted: int) -> Quest {
    let c = counter(q, CRAFTED_COUNTER as int);
    let a = counter(q, ATTEMPT_COUNTER as int);
    with_counter(
        with_counter(q, CRAFTED_COUNTER as int, sat_add_u16(c, crafted)),
        ATTEMPT_COUNTER as int,
        sat_add_u16(a, 1),
    )
}

/// Each synthesis attempt, whether it succeeds or fails, uses up one
/// of the materials left and never adds any; so the crafting loop,
/// which goes on while materials remain, ends.
pub proof fn law_attempt_uses_materials(q: Quest, data: PassiveGuildleveData, crafted: u16)
    requires
        counter(q, ATTEMPT_COUNTER as int) < u16::MAX,
    ensures
        spec_remaining_materials(after_attempt(q, crafted as int), data) <= spec_remaining_materials(
            q,
            data,
        ),
        spec_remaining_materials(q, data) > 0 ==> spec_remaining_materials(
            after_attempt(q, crafted as int),
            data,
        ) == spec_remaining_materials(q, data) - 1,
{
}

/// The quest of a passive guildleve read through its catalog row.
pub struct PassiveGuildleveView<'a> {
    pub quest: &'a mut Quest,
    pub data: &'a PassiveGuildleveData,
}

impl<'a> PassiveGuildleveView<'a> {
    /// The quest as the view currently sees it.
    pub open spec fn state(&self) -> Quest {
        *self.quest
    }

    /// Reads `quest` as the leve described by `data`.
    pub fn new(quest: &'a mut Quest, data: &'a PassiveGuildleveData) -> (res: PassiveGuildleveView<'a>)
        ensures
            res.state() == *old(quest),
            *res.data == *data,
            *final(quest) == *final(res.quest),
    {
        PassiveGuildleveView { quest, data }
    }

    /// Difficulty band (0..=3).
    pub fn difficulty(&self) -> (res: usize)
        ensures
            res as int == difficulty_band(self.state()),
            res < 4,
    {
        self.quest.difficulty_band()
    }

    /// Items crafted so far.
    pub fn current_crafted(&self) -> (res: u16)
        ensures
            res == counter(self.state(), CRAFTED_COUNTER as int),
    {
        self.quest.get_counter(CRAFTED_COUNTER)
    }

    /// Attempts made so far.
    pub fn current_attempt(&self) -> (res: u16)
        ensures
            res == counter(self.state(), ATTEMPT_COUNTER as int),
    {
        self.quest.get_counter(ATTEMPT_COUNTER)
    }

    /// Items the band asks for.
    pub fn objective_quantity(&self) -> (res: u32)
        ensures
            res == self.data.objective_quantity@[difficulty_band(self.state())],
    {
        let b = self.difficulty();
        self.data.objective_quantity[b]
    }

    /// Item the band asks for.
    pub fn objective_item_id(&self) -> (res: u32)
        ensures
            res == self.data.objective_item_id@[difficulty_band(self.state())],
    {
        let b = self.difficulty();
        self.data.objective_item_id[b]
    }

    /// Attempts the band allows.
    pub fn number_of_attempts(&self) -> (res: u32)
        ensures
            res == self.data.number_of_attempts@[difficulty_band(self.state())],
    {
        let b = self.difficulty();
        self.data.number_of_attempts[b]
    }

    /// Whether the materials were handed over.
    pub fn has_materials(&self) -> (res: bool)
        ensures
            res == flag_bit(self.state().flags, HAS_MATERIALS_FLAG_BIT as int),
    {
        self.quest.get_flag(HAS_MATERIALS_FLAG_BIT)
    }

    /// Records whether the materials were handed over.
    pub fn set_has_materials(&mut self, value: bool)
        ensures
            final(self).state() == if value {
                crate::quest::with_flag(old(self).state(), HAS_MATERIALS_FLAG_BIT as int)
            } else {
                crate::quest::without_flag(old(self).state(), HAS_MATERIALS_FLAG_BIT as int)
            },
            final(self).data == old(self).data,
            *final(final(self).quest) == *final(old(self).quest),
    {
        if value {
            self.quest.set_flag(HAS_MATERIALS_FLAG_BIT);
        } else {
            self.quest.clear_flag(HAS_MATERIALS_FLAG_BIT);
        }
    }

    /// Materials left for further attempts: the attempts the band
    /// allows minus those made (never below zero), or zero when the
    /// materials were not handed over.
    pub fn remaining_materials(&self) -> (res: u32)
        ensures
            res as int == spec_remaining_materials(self.state(), *self.data),
    {
        if !self.has_materials() {
            return 0;
        }
        let allowed = self.number_of_attempts();
        let made = self.current_attempt() as u32;
        if allowed > made {
            allowed - made
        } else {
            0
        }
    }

    /// A successful synthesis of `crafted` items: both the crafted count
    /// and the attempt count go up (each stopping at `u16::MAX`).
    pub fn craft_success(&mut self, crafted: u16)
        ensures
            final(self).state() == after_attempt(old(self).state(), crafted as int),
            final(self).data == old(self).data,
            *final(final(self).quest) == *final(old(self).quest),
    {
        let c = self.quest.get_counter(CRAFTED_COUNTER);
        let nc: u16 = if c as u32 + crafted as u32 > u16::MAX as u32 { u16::MAX } else { c + crafted };
        self.quest.set_counter(CRAFTED_COUNTER, nc);
        let a = self.quest.get_counter(ATTEMPT_COUNTER);
        let na: u16 = if a == u16::MAX { u16::MAX } else { a + 1 };
        self.quest.set_counter(ATTEMPT_COUNTER, na);
    }

    /// A failed synthesis: only the attempt count goes up (stopping at
    /// `u16::MAX`).
    pub fn craft_fail(&mut self)
        ensures
            final(self).state() == after_attempt(old(self).state(), 0),
            final(self).data == old(self).data,
            *final(final(self).quest) == *final(old(self).quest),
    {
        let a = self.quest.get_counter(ATTEMPT_COUNTER);
        let na: u16 = if a == u16::MAX { u16::MAX } else { a + 1 };
        self.quest.set_counter(ATTEMPT_COUNTER, na);
    }
}


} // verus!
