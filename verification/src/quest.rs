//! Quests: the per-quest scenario state (sequence, flags, counters) and
//! a player's journal of active and completed quests.

use vstd::prelude::*;
use crate::bitstream::{Bitstream2048, BITSTREAM_BITS};

verus! {

/// High bits of every quest actor id.
pub const QUEST_ACTOR_BASE: u32 = 0xA0F0_0000;

/// Mask that takes the quest id back out of a quest actor id.
pub const QUEST_ID_MASK: u32 = 0x000F_FFFF;

/// First quest id that the completed-quest bitfield can record.
pub const COMPLETED_QUEST_ID_MIN: u32 = 110_001;

/// Last quest id that the completed-quest bitfield can record.
pub const COMPLETED_QUEST_ID_MAX: u32 = 112_048;

/// Number of flag bits a quest carries.
pub const QUEST_FLAG_BITS: u8 = 32;

/// The actor id under which a quest is addressed on the wire.
pub open spec fn spec_quest_actor_id(quest_id: u32) -> u32 {
    QUEST_ACTOR_BASE | quest_id
}

/// The quest id inside a quest actor id.
pub open spec fn quest_id_of(actor_id: u32) -> u32 {
    actor_id & QUEST_ID_MASK
}

/// The actor id of a quest: `0xA0F00000 | quest_id`.
pub fn quest_actor_id(quest_id: u32) -> (res: u32)
    ensures
        res == spec_quest_actor_id(quest_id),
        quest_id <= QUEST_ID_MASK ==> res == QUEST_ACTOR_BASE + quest_id,
        quest_id <= QUEST_ID_MASK ==> quest_id_of(res) == quest_id,
{
    assert(quest_id <= 0x000F_FFFFu32 ==> (0xA0F0_0000u32 | quest_id) == 0xA0F0_0000u32 + quest_id
        && ((0xA0F0_0000u32 | quest_id) & 0x000F_FFFFu32) == quest_id) by (bit_vector);
    QUEST_ACTOR_BASE | quest_id
}

/// Whether bit `bit` of a quest's flag word is set (bits past 31 never are).
pub open spec fn flag_bit(flags: u32, bit: int) -> bool {
    0 <= bit < 32 && (flags >> (bit as u32)) & 1u32 == 1u32
}

/// Position in the completed-quest bitfield of a quest id, if it has one.
pub open spec fn completed_slot(quest_id: u32) -> Option<int> {
    if COMPLETED_QUEST_ID_MIN <= quest_id <= COMPLETED_QUEST_ID_MAX {
        Some(quest_id - COMPLETED_QUEST_ID_MIN)
    } else {
        None
    }
}

/// The scenario state of one quest.
pub struct Quest {
    /// `0xA0F00000 | quest_id`.
    pub actor_id: u32,
    /// Script name.
    pub name: String,
    /// Current sequence number of the scenario.
    pub sequence: u32,
    /// Flag word; bit `n` is flag `n`.
    pub flags: u32,
    /// Counter 0.
    pub counter1: u16,
    /// Counter 1.
    pub counter2: u16,
    /// Counter 2.
    pub counter3: u16,
    /// Counter 3.
    pub counter4: u16,
    /// Whether the state changed since it was last saved.
    pub dirty: bool,
}

/// Counter `idx` of a quest (0 past the fourth).
pub open spec fn counter(q: Quest, idx: int) -> u16 {
    if idx == 0 {
        q.counter1
    } else if idx == 1 {
        q.counter2
    } else if idx == 2 {
        q.counter3
    } else if idx == 3 {
        q.counter4
    } else {
        0
    }
}

/// The quest with counter `idx` set to `value` and marked dirty
/// (unchanged for an index past the fourth).
pub open spec fn with_counter(q: Quest, idx: int, value: u16) -> Quest {
    if idx == 0 {
        Quest { counter1: value, dirty: true, ..q }
    } else if idx == 1 {
        Quest { counter2: value, dirty: true, ..q }
    } else if idx == 2 {
        Quest { counter3: value, dirty: true, ..q }
    } else if idx == 3 {
        Quest { counter4: value, dirty: true, ..q }
    } else {
        q
    }
}

/// The quest with flag `bit` set and marked dirty (unchanged for a bit
/// past 31).
pub open spec fn with_flag(q: Quest, bit: int) -> Quest {
    if 0 <= bit < 32 {
        Quest { flags: q.flags | (1u32 << (bit as u32)), dirty: true, ..q }
    } else {
        q
    }
}

/// The quest with flag `bit` cleared and marked dirty (unchanged for a
/// bit past 31).
pub open spec fn without_flag(q: Quest, bit: int) -> Quest {
    if 0 <= bit < 32 {
        Quest { flags: q.flags & !(1u32 << (bit as u32)), dirty: true, ..q }
    } else {
        q
    }
}

/// Setting a flag sets exactly that flag; clearing one clears exactly
/// that flag; every other flag keeps its value.
pub proof fn law_flag_update(q: Quest, bit: int, other: int)
    requires
        0 <= other < 32,
    ensures
        flag_bit(with_flag(q, bit).flags, other) == (other == bit || flag_bit(q.flags, other)),
        flag_bit(without_flag(q, bit).flags, other) == (other != bit && flag_bit(q.flags, other)),
{
    if 0 <= bit < 32 {
        let k = bit as u32;
        let bb = other as u32;
        let f = q.flags;
        assert(((f | (1u32 << k)) >> bb) & 1u32 == 1u32 <==> (bb == k || (f >> bb) & 1u32 == 1u32))
            by (bit_vector)
            requires
                k < 32,
                bb < 32,
        ;
        assert(((f & !(1u32 << k)) >> bb) & 1u32 == 1u32 <==> (bb != k && (f >> bb) & 1u32 == 1u32))
            by (bit_vector)
            requires
                k < 32,
                bb < 32,
        ;
    }
}

/// Setting a counter changes that counter alone.
pub proof fn law_counter_update(q: Quest, idx: int, value: u16, other: int)
    requires
        0 <= idx < 4,
    ensures
        counter(with_counter(q, idx, value), other) == if other == idx {
            value
        } else {
            counter(q, other)
        },
        with_counter(q, idx, value).flags == q.flags,
{
}

/// Counter that leves use for the chosen difficulty band.
pub const BAND_COUNTER: usize = 1;

/// The difficulty band a quest records in its second counter, read as
/// band 0 when it is not one of 0..=3.
pub open spec fn difficulty_band(q: Quest) -> int {
    let b = counter(q, BAND_COUNTER as int);
    if b < 4 {
        b as int
    } else {
        0
    }
}

impl Quest {
    /// Difficulty band recorded in the second counter (0..=3; any other
    /// value reads as 0).
    pub fn difficulty_band(&self) -> (res: usize)
        ensures
            res as int == difficulty_band(*self),
            res < 4,
    {
        let b = self.get_counter(BAND_COUNTER);
        if b < 4 {
            b as usize
        } else {
            0
        }
    }

    /// A quest at sequence 0 with no flags and zero counters, marked
    /// as not yet saved.
    pub fn new(actor_id: u32, name: &str) -> (res: Quest)
        ensures
            res.actor_id == actor_id,
            res.name@ == name@,
            res.sequence == 0,
            res.flags == 0,
            res.counter1 == 0 && res.counter2 == 0 && res.counter3 == 0 && res.counter4 == 0,
            res.dirty,
    {
        Quest {
            actor_id,
            name: name.to_owned(),
            sequence: 0,
            flags: 0,
            counter1: 0,
            counter2: 0,
            counter3: 0,
            counter4: 0,
            dirty: true,
        }
    }

    /// The quest id (low 20 bits of the actor id).
    pub fn quest_id(&self) -> (res: u32)
        ensures
            res == quest_id_of(self.actor_id),
    {
        self.actor_id & QUEST_ID_MASK
    }

    /// Flag `bit`; `false` for a bit past 31.
    pub fn get_flag(&self, bit: u8) -> (res: bool)
        ensures
            res == flag_bit(self.flags, bit as int),
    {
        if bit >= QUEST_FLAG_BITS {
            return false;
        }
        (self.flags >> (bit as u32)) & 1u32 == 1u32
    }

    /// Sets flag `bit` and marks the quest dirty; a bit past 31 changes nothing.
    pub fn set_flag(&mut self, bit: u8)
        ensures
            *final(self) == with_flag(*old(self), bit as int),
    {
        if bit >= QUEST_FLAG_BITS {
            return;
        }
        self.flags = self.flags | (1u32 << (bit as u32));
        self.dirty = true;
    }

    /// Clears flag `bit` and marks the quest dirty; a bit past 31 changes nothing.
    pub fn clear_flag(&mut self, bit: u8)
        ensures
            *final(self) == without_flag(*old(self), bit as int),
    {
        if bit >= QUEST_FLAG_BITS {
            return;
        }
        self.flags = self.flags & !(1u32 << (bit as u32));
        self.dirty = true;
    }

    /// Counter `idx`; 0 for an index past 3.
    pub fn get_counter(&self, idx: usize) -> (res: u16)
        ensures
            res == counter(*self, idx as int),
    {
        if idx == 0 {
            self.counter1
        } else if idx == 1 {
            self.counter2
        } else if idx == 2 {
            self.counter3
        } else if idx == 3 {
            self.counter4
        } else {
            0
        }
    }

    /// Sets counter `idx` and marks the quest dirty; an index past 3
    /// changes nothing.
    pub fn set_counter(&mut self, idx: usize, value: u16)
        ensures
            *final(self) == with_counter(*old(self), idx as int, value),
    {
        if idx == 0 {
            self.counter1 = value;
        } else if idx == 1 {
            self.counter2 = value;
        } else if idx == 2 {
            self.counter3 = value;
        } else if idx == 3 {
            self.counter4 = value;
        } else {
            return;
        }
        self.dirty = true;
    }

    /// Current sequence.
    pub fn get_sequence(&self) -> (res: u32)
        ensures
            res == self.sequence,
    {
        self.sequence
    }

    /// Moves the scenario to `sequence` and marks the quest dirty.
    pub fn set_sequence(&mut self, sequence: u32)
        ensures
            *final(self) == (Quest { sequence, dirty: true, ..*old(self) }),
    {
        self.sequence = sequence;
        self.dirty = true;
    }

    /// Whether the state changed since it was last saved.
    pub fn is_dirty(&self) -> (res: bool)
        ensures
            res == self.dirty,
    {
        self.dirty
    }

    /// Marks the state as saved.
    pub fn clear_dirty(&mut self)
        ensures
            *final(self) == (Quest { dirty: false, ..*old(self) }),
    {
        self.dirty = false;
    }
}

/// Number of quests a journal holds at once.
pub const JOURNAL_SLOTS: usize = 16;

/// Whether the quest at `i` of `qs` is the first one with id `quest_id`.
pub open spec fn is_first_match(qs: Seq<Quest>, quest_id: u32, i: int) -> bool {
    &&& 0 <= i < qs.len()
    &&& quest_id_of(qs[i].actor_id) == quest_id
    &&& forall|j: int| 0 <= j < i ==> quest_id_of(#[trigger] qs[j].actor_id) != quest_id
}

/// Whether some quest of `qs` has id `quest_id`.
pub open spec fn holds_quest(qs: Seq<Quest>, quest_id: u32) -> bool {
    exists|i: int| 0 <= i < qs.len() && quest_id_of(#[trigger] qs[i].actor_id) == quest_id
}

/// A journal that holds a quest has a first entry for it.
pub proof fn lemma_first_match_exists(qs: Seq<Quest>, quest_id: u32)
    requires
        holds_quest(qs, quest_id),
    ensures
        exists|i: int| is_first_match(qs, quest_id, i),
    decreases qs.len(),
{
    let d = qs.drop_last();
    if holds_quest(d, quest_id) {
        lemma_first_match_exists(d, quest_id);
        let i = choose|i: int| is_first_match(d, quest_id, i);
        assert(d[i] == qs[i]);
        assert forall|j: int| 0 <= j < i implies quest_id_of(#[trigger] qs[j].actor_id) != quest_id by {
            assert(d[j] == qs[j]);
        }
        assert(is_first_match(qs, quest_id, i));
    } else {
        let w = choose|w: int| 0 <= w < qs.len() && quest_id_of(#[trigger] qs[w].actor_id) == quest_id;
        if w < qs.len() - 1 {
            assert(d[w] == qs[w]);
        }
        assert forall|j: int| 0 <= j < qs.len() - 1 implies quest_id_of(#[trigger] qs[j].actor_id)
            != quest_id by {
            assert(d[j] == qs[j]);
        }
        assert(is_first_match(qs, quest_id, qs.len() - 1));
    }
}

/// Whether no two active quests share an id.
pub open spec fn ids_unique(qs: Seq<Quest>) -> bool {
    forall|i: int, j: int|
        0 <= i < j < qs.len() ==> quest_id_of(#[trigger] qs[i].actor_id) != quest_id_of(
            #[trigger] qs[j].actor_id,
        )
}

/// A journal built by `add` never holds a quest twice: adding keeps the
/// ids unique, and so does taking a quest out.
pub proof fn law_journal_ids_stay_unique(qs: Seq<Quest>, q: Quest, i: int)
    requires
        ids_unique(qs),
    ensures
        !holds_quest(qs, quest_id_of(q.actor_id)) ==> ids_unique(qs.push(q)),
        0 <= i < qs.len() ==> ids_unique(qs.remove(i)),
{
    if !holds_quest(qs, quest_id_of(q.actor_id)) {
        assert forall|a: int, b: int| 0 <= a < b < qs.push(q).len() implies quest_id_of(
            #[trigger] qs.push(q)[a].actor_id,
        ) != quest_id_of(#[trigger] qs.push(q)[b].actor_id) by {
            if b == qs.len() {
                assert(qs.push(q)[a] == qs[a]);
            }
        }
    }
    if 0 <= i < qs.len() {
        let r = qs.remove(i);
        assert forall|a: int, b: int| 0 <= a < b < r.len() implies quest_id_of(
            #[trigger] r[a].actor_id,
        ) != quest_id_of(#[trigger] r[b].actor_id) by {
            let a0 = if a < i { a } else { a + 1 };
            let b0 = if b < i { b } else { b + 1 };
            assert(r[a] == qs[a0]);
            assert(r[b] == qs[b0]);
        }
    }
}

/// Recording a completion and reading it back gives what was recorded,
/// in both directions, and leaves every other quest's record as it was.
/// Recording the same completion twice is the same as recording it once.
pub proof fn law_completion_record(done: Seq<bool>, quest_id: u32, other: u32, flag: bool)
    requires
        done.len() == BITSTREAM_BITS,
    ensures
        completed_slot(quest_id) matches Some(k) ==> done.update(k, flag)[k] == flag,
        completed_slot(quest_id) matches Some(k) ==> done.update(k, flag).update(k, flag)
            == done.update(k, flag),
        other != quest_id && completed_slot(quest_id) is Some && completed_slot(other) is Some
            ==> done.update(completed_slot(quest_id).unwrap(), flag)[completed_slot(other).unwrap()]
            == done[completed_slot(other).unwrap()],
{
    if let Some(k) = completed_slot(quest_id) {
        assert(done.update(k, flag).update(k, flag) =~= done.update(k, flag));
    }
}

/// A player's active quests and the bitfield of completed ones.
pub struct QuestJournal {
    /// Active quests, in the order they were added.
    pub quests: Vec<Quest>,
    /// Bit `id - 110001` records the completion of quest `id`.
    pub completed: Bitstream2048,
}

impl QuestJournal {
    /// No active quests and nothing completed.
    pub fn new() -> (res: QuestJournal)
        ensures
            res.quests@.len() == 0,
            res.completed@ == Seq::new(BITSTREAM_BITS as nat, |i: int| false),
    {
        QuestJournal { quests: Vec::new(), completed: Bitstream2048::new() }
    }

    /// Index of the first active quest with id `quest_id`.
    pub fn find(&self, quest_id: u32) -> (res: Option<usize>)
        ensures
            res is None <==> !holds_quest(self.quests@, quest_id),
            res matches Some(i) ==> is_first_match(self.quests@, quest_id, i as int),
    {
        let mut i: usize = 0;
        while i < self.quests.len()
            invariant
                i <= self.quests@.len(),
                forall|j: int| 0 <= j < i ==> quest_id_of(#[trigger] self.quests@[j].actor_id)
                    != quest_id,
            decreases self.quests@.len() - i,
        {
            if self.quests[i].quest_id() == quest_id {
                return Some(i);
            }
            i = i + 1;
        }
        None
    }

    /// The active quest with id `quest_id`, if there is one.
    pub fn get(&self, quest_id: u32) -> (res: Option<&Quest>)
        ensures
            res is None <==> !holds_quest(self.quests@, quest_id),
            res matches Some(q) ==> exists|i: int|
                is_first_match(self.quests@, quest_id, i) && *q == self.quests@[i],
    {
        match self.find(quest_id) {
            Some(i) => Some(&self.quests[i]),
            None => None,
        }
    }

    /// Adds a quest to the journal. Refused (`false`, journal unchanged)
    /// when a quest with the same id is already active or all sixteen
    /// slots are taken.
    pub fn add(&mut self, quest: Quest) -> (res: bool)
        ensures
            res == (!holds_quest(old(self).quests@, quest_id_of(quest.actor_id))
                && old(self).quests@.len() < JOURNAL_SLOTS),
            res ==> final(self).quests@ == old(self).quests@.push(quest),
            !res ==> final(self).quests@ == old(self).quests@,
            final(self).completed == old(self).completed,
    {
        let id = quest.quest_id();
        if self.quests.len() >= JOURNAL_SLOTS {
            return false;
        }
        match self.find(id) {
            Some(_) => false,
            None => {
                self.quests.push(quest);
                true
            },
        }
    }

    /// Takes the first active quest with id `quest_id` out of the journal.
    pub fn remove(&mut self, quest_id: u32) -> (res: Option<Quest>)
        ensures
            res is None <==> !holds_quest(old(self).quests@, quest_id),
            res is None ==> final(self).quests@ == old(self).quests@,
            res matches Some(q) ==> exists|i: int|
                is_first_match(old(self).quests@, quest_id, i) && q == old(self).quests@[i]
                    && final(self).quests@ == old(self).quests@.remove(i),
            final(self).completed == old(self).completed,
    {
        match self.find(quest_id) {
            Some(i) => Some(self.quests.remove(i)),
            None => None,
        }
    }

    /// Whether quest `quest_id` is recorded as completed; ids outside
    /// 110001..=112048 never are.
    pub fn is_completed(&self, quest_id: u32) -> (res: bool)
        ensures
            res == (completed_slot(quest_id) matches Some(k) && self.completed@[k]),
    {
        if quest_id < COMPLETED_QUEST_ID_MIN || quest_id > COMPLETED_QUEST_ID_MAX {
            return false;
        }
        self.completed.get((quest_id - COMPLETED_QUEST_ID_MIN) as usize)
    }

    /// Records (`flag`) or erases (`!flag`) the completion of a quest;
    /// ids outside 110001..=112048 change nothing.
    pub fn set_completed(&mut self, quest_id: u32, flag: bool)
        ensures
            completed_slot(quest_id) matches Some(k) ==> final(self).completed@ == old(
                self,
            ).completed@.update(k, flag),
            completed_slot(quest_id) is None ==> final(self).completed@ == old(self).completed@,
            final(self).quests == old(self).quests,
    {
        if quest_id < COMPLETED_QUEST_ID_MIN || quest_id > COMPLETED_QUEST_ID_MAX {
            return;
        }
        let k = (quest_id - COMPLETED_QUEST_ID_MIN) as usize;
        if flag {
            self.completed.set(k);
        } else {
            self.completed.clear(k);
        }
    }

    /// Number of quests recorded as completed.
    pub fn completed_count(&self) -> (res: usize)
        ensures
            res == crate::bitstream::count_true(self.completed@),
    {
        self.completed.count_ones()
    }
}

} // verus!
