//! Regional guildleves (fieldcraft and battlecraft): the catalog,
//! accepting a leve, progress from harvests and kills, and the hand-in.

use vstd::prelude::*;
use crate::grand_company::is_company;
use crate::quest::{
    Quest, QuestJournal, JOURNAL_SLOTS, counter, difficulty_band, flag_bit, holds_quest,
    is_first_match, quest_actor_id, spec_quest_actor_id, with_counter, with_flag,
};

verus! {

/// First fieldcraft leve id.
pub const FIELDCRAFT_LEVE_ID_MIN: u32 = 130_001;

/// Last fieldcraft leve id.
pub const FIELDCRAFT_LEVE_ID_MAX: u32 = 139_999;

/// First battlecraft leve id.
pub const BATTLECRAFT_LEVE_ID_MIN: u32 = 140_001;

/// Last battlecraft leve id.
pub const BATTLECRAFT_LEVE_ID_MAX: u32 = 149_999;

/// Quest flag set when the leve was accepted at a levemete.
pub const ACCEPTED_FLAG_BIT: u8 = 0;

/// Quest flag set when the leve's objective was met.
pub const COMPLETED_FLAG_BIT: u8 = 1;

/// Quest counter that holds the objective progress.
pub const PROGRESS_COUNTER: usize = 0;

/// Whether a leve id is a fieldcraft leve.
pub open spec fn is_fieldcraft(id: u32) -> bool {
    FIELDCRAFT_LEVE_ID_MIN <= id <= FIELDCRAFT_LEVE_ID_MAX
}

/// Whether a leve id is a battlecraft leve.
pub open spec fn is_battlecraft(id: u32) -> bool {
    BATTLECRAFT_LEVE_ID_MIN <= id <= BATTLECRAFT_LEVE_ID_MAX
}

/// Catalog row of a regional leve; the arrays are indexed by difficulty band.
pub struct RegionalLeve {
    pub id: u32,
    /// Guildleve card shown by the levemete; 0 when the leve has none.
    pub plate_id: u32,
    /// Name of the leve's quest script.
    pub script_name: String,
    /// Item to gather (fieldcraft) or enemy class to defeat (battlecraft).
    pub objective_target: [u32; 4],
    /// Items or kills the band asks for.
    pub objective_quantity: [u16; 4],
    /// Gil paid on hand-in.
    pub gil_reward: [i32; 4],
    /// Item given on hand-in; 0 for none.
    pub item_reward: [u32; 4],
    /// How many of the reward item.
    pub item_reward_quantity: [u32; 4],
}

/// The regional leves known to the server.
pub struct RegionalLeveCatalog {
    pub leves: Vec<RegionalLeve>,
}

/// Whether a leve is one whose band-0 objective is `target`, of the
/// fieldcraft kind (`fieldcraft`) or the battlecraft kind (`!fieldcraft`).
pub open spec fn leve_matches(l: RegionalLeve, fieldcraft: bool, target: u32) -> bool {
    &&& if fieldcraft {
        is_fieldcraft(l.id)
    } else {
        is_battlecraft(l.id)
    }
    &&& l.objective_target@[0] == target
}

/// Ids of the leves of `cat` that match, in catalog order.
pub open spec fn matching_ids(cat: Seq<RegionalLeve>, fieldcraft: bool, target: u32) -> Seq<u32>
    decreases cat.len(),
{
    if cat.len() == 0 {
        Seq::empty()
    } else {
        matching_ids(cat.drop_last(), fieldcraft, target) + if leve_matches(
            cat.last(),
            fieldcraft,
            target,
        ) {
            seq![cat.last().id]
        } else {
            Seq::empty()
        }
    }
}

/// Whether the catalog row at `i` is the first with id `id`.
pub open spec fn is_first_leve(cat: Seq<RegionalLeve>, id: u32, i: int) -> bool {
    &&& 0 <= i < cat.len()
    &&& cat[i].id == id
    &&& forall|j: int| 0 <= j < i ==> #[trigger] cat[j].id != id
}

/// Whether some catalog row has id `id`.
pub open spec fn catalog_has(cat: Seq<RegionalLeve>, id: u32) -> bool {
    exists|i: int| 0 <= i < cat.len() && #[trigger] cat[i].id == id
}

/// The catalog row with id `id` (meaningful when there is one).
pub open spec fn catalog_row(cat: Seq<RegionalLeve>, id: u32) -> RegionalLeve {
    cat[choose|i: int| is_first_leve(cat, id, i)]
}

/// Position of the first active quest with id `id` (meaningful when there is one).
pub open spec fn first_quest_index(qs: Seq<Quest>, id: u32) -> int {
    choose|i: int| is_first_match(qs, id, i)
}

/// Whether a leve's quest was accepted and its objective is not met yet.
pub open spec fn leve_in_progress(q: Quest) -> bool {
    flag_bit(q.flags, ACCEPTED_FLAG_BIT as int) && !flag_bit(q.flags, COMPLETED_FLAG_BIT as int)
}

/// Progress after adding `amount`, stopping at the objective.
pub open spec fn progress_after(q: Quest, amount: int, objective: int) -> int {
    let p = counter(q, PROGRESS_COUNTER as int) + amount;
    if p > objective {
        objective
    } else {
        p
    }
}

/// A leve's quest after progress of `amount` against `objective`, and
/// whether this step met the objective. A leve not in progress (not
/// accepted, or already complete) stays as it is.
pub open spec fn spec_advance(q: Quest, amount: int, objective: int) -> (Quest, bool) {
    if !leve_in_progress(q) {
        (q, false)
    } else {
        let p = progress_after(q, amount, objective);
        let q1 = with_counter(q, PROGRESS_COUNTER as int, p as u16);
        if p >= objective {
            (with_flag(q1, COMPLETED_FLAG_BIT as int), true)
        } else {
            (q1, false)
        }
    }
}

/// Adds `amount` to a leve's progress, stopping at `objective`, and
/// marks the leve complete when the objective is met. Returns whether
/// this call completed it. A leve not accepted, or already complete,
/// is left alone.
pub fn advance_progress(quest: &mut Quest, amount: u16, objective: u16) -> (res: bool)
    ensures
        (*final(quest), res) == spec_advance(*old(quest), amount as int, objective as int),
{
    if !quest.get_flag(ACCEPTED_FLAG_BIT) || quest.get_flag(COMPLETED_FLAG_BIT) {
        return false;
    }
    let c = quest.get_counter(PROGRESS_COUNTER);
    let sum: u32 = c as u32 + amount as u32;
    let p: u16 = if sum > objective as u32 { objective } else { sum as u16 };
    quest.set_counter(PROGRESS_COUNTER, p);
    if p >= objective {
        quest.set_flag(COMPLETED_FLAG_BIT);
        true
    } else {
        false
    }
}

/// Objective of a leve for the band a quest records.
pub open spec fn objective_for(l: RegionalLeve, q: Quest) -> int {
    l.objective_quantity@[difficulty_band(q)] as int
}

/// The journal after progress of `amount` on leve `l`, and whether it
/// completed the leve. A journal without the leve stays as it is.
pub open spec fn spec_tick_leve(qs: Seq<Quest>, l: RegionalLeve, amount: int) -> (Seq<Quest>, bool) {
    if holds_quest(qs, l.id) {
        let i = first_quest_index(qs, l.id);
        let (nq, done) = spec_advance(qs[i], amount, objective_for(l, qs[i]));
        (qs.update(i, nq), done)
    } else {
        (qs, false)
    }
}

/// The journal after progress of `amount` on every matching leve of
/// `cat`, in catalog order, with the ids of the leves completed.
pub open spec fn spec_tick_matching(
    qs: Seq<Quest>,
    cat: Seq<RegionalLeve>,
    fieldcraft: bool,
    target: u32,
    amount: int,
) -> (Seq<Quest>, Seq<u32>)
    decreases cat.len(),
{
    if cat.len() == 0 {
        (qs, Seq::empty())
    } else {
        let (q1, d1) = spec_tick_matching(qs, cat.drop_last(), fieldcraft, target, amount);
        let l = cat.last();
        if leve_matches(l, fieldcraft, target) {
            let (q2, done) = spec_tick_leve(q1, l, amount);
            (q2, if done {
                d1.push(l.id)
            } else {
                d1
            })
        } else {
            (q1, d1)
        }
    }
}

/// Progress of `amount` on leve `l` in a journal; returns whether it
/// completed the leve.
pub fn tick_leve(journal: &mut QuestJournal, l: &RegionalLeve, amount: u16) -> (res: bool)
    ensures
        (final(journal).quests@, res) == spec_tick_leve(old(journal).quests@, *l, amount as int),
        final(journal).completed == old(journal).completed,
{
    match journal.find(l.id) {
        None => false,
        Some(i) => {
            let ghost qs = journal.quests@;
            assert(first_quest_index(qs, l.id) == i as int) by {
                let k = first_quest_index(qs, l.id);
                assert(is_first_match(qs, l.id, i as int));
                assert(is_first_match(qs, l.id, k));
                if k < i as int {
                    assert(crate::quest::quest_id_of(qs[k].actor_id) != l.id);
                } else if k > i as int {
                    assert(crate::quest::quest_id_of(qs[i as int].actor_id) != l.id);
                }
            }
            let mut q = journal.quests.remove(i);
            let band = q.difficulty_band();
            let objective = l.objective_quantity[band];
            let done = advance_progress(&mut q, amount, objective);
            journal.quests.insert(i, q);
            assert(journal.quests@ =~= qs.update(i as int, q));
            done
        },
    }
}


/// Progress of `amount` on every leve of the catalog that matches
/// (fieldcraft or battlecraft, band-0 objective `target`), in catalog
/// order; returns the ids of the leves this completed.
pub fn tick_matching_leves(
    journal: &mut QuestJournal,
    catalog: &RegionalLeveCatalog,
    fieldcraft: bool,
    target: u32,
    amount: u16,
) -> (res: Vec<u32>)
    ensures
        (final(journal).quests@, res@) == spec_tick_matching(
            old(journal).quests@,
            catalog.leves@,
            fieldcraft,
            target,
            amount as int,
        ),
        final(journal).completed == old(journal).completed,
{
    let mut done: Vec<u32> = Vec::new();
    let mut k: usize = 0;
    let ghost qs0 = journal.quests@;
    let ghost cat = catalog.leves@;
    assert(cat.take(0) =~= Seq::<RegionalLeve>::empty());
    while k < catalog.leves.len()
        invariant
            k <= cat.len(),
            cat == catalog.leves@,
            (journal.quests@, done@) == spec_tick_matching(qs0, cat.take(k as int), fieldcraft, target, amount as int),
            journal.completed == old(journal).completed,
        decreases cat.len() - k,
    {
        assert(cat.take(k + 1).drop_last() =~= cat.take(k as int));
        assert(cat.take(k + 1).last() == cat[k as int]);
        let l = &catalog.leves[k];
        let is_kind = if fieldcraft {
            l.id >= FIELDCRAFT_LEVE_ID_MIN && l.id <= FIELDCRAFT_LEVE_ID_MAX
        } else {
            l.id >= BATTLECRAFT_LEVE_ID_MIN && l.id <= BATTLECRAFT_LEVE_ID_MAX
        };
        if is_kind && l.objective_target[0] == target {
            let completed = tick_leve(journal, l, amount);
            if completed {
                done.push(l.id);
            }
        }
        k = k + 1;
    }
    assert(cat.take(cat.len() as int) =~= cat);
    done
}

/// Progress on every accepted fieldcraft leve whose objective is item
/// `item_id`, for `quantity` items gathered; returns the leves completed.
pub fn advance_fieldcraft_leves(
    journal: &mut QuestJournal,
    catalog: &RegionalLeveCatalog,
    item_id: u32,
    quantity: u16,
) -> (res: Vec<u32>)
    ensures
        (final(journal).quests@, res@) == spec_tick_matching(
            old(journal).quests@,
            catalog.leves@,
            true,
            item_id,
            quantity as int,
        ),
        final(journal).completed == old(journal).completed,
{
    tick_matching_leves(journal, catalog, true, item_id, quantity)
}

/// Progress on every accepted battlecraft leve whose objective is enemy
/// class `class_id`, for one enemy defeated; returns the leves completed.
pub fn advance_battlecraft_leves(
    journal: &mut QuestJournal,
    catalog: &RegionalLeveCatalog,
    class_id: u32,
) -> (res: Vec<u32>)
    ensures
        (final(journal).quests@, res@) == spec_tick_matching(
            old(journal).quests@,
            catalog.leves@,
            false,
            class_id,
            1,
        ),
        final(journal).completed == old(journal).completed,
{
    tick_matching_leves(journal, catalog, false, class_id, 1)
}

impl RegionalLeveCatalog {
    /// Number of leves.
    pub fn num_leves(&self) -> (res: usize)
        ensures
            res == self.leves@.len(),
    {
        self.leves.len()
    }

    /// Position of the first row with id `id`.
    pub fn find(&self, id: u32) -> (res: Option<usize>)
        ensures
            res is None <==> !catalog_has(self.leves@, id),
            res matches Some(i) ==> is_first_leve(self.leves@, id, i as int),
    {
        let mut i: usize = 0;
        while i < self.leves.len()
            invariant
                i <= self.leves@.len(),
                forall|j: int| 0 <= j < i ==> #[trigger] self.leves@[j].id != id,
            decreases self.leves@.len() - i,
        {
            if self.leves[i].id == id {
                return Some(i);
            }
            i = i + 1;
        }
        None
    }

    /// The leve with id `id`.
    pub fn get(&self, id: u32) -> (res: Option<&RegionalLeve>)
        ensures
            res is None <==> !catalog_has(self.leves@, id),
            res matches Some(l) ==> *l == catalog_row(self.leves@, id) && l.id == id,
    {
        match self.find(id) {
            None => None,
            Some(i) => {
                proof {
                    lemma_first_leve_unique(self.leves@, id, i as int);
                }
                Some(&self.leves[i])
            },
        }
    }

    /// The first leve shown on card `plate_id`; card 0 never resolves.
    pub fn leve_for_plate(&self, plate_id: u32) -> (res: Option<&RegionalLeve>)
        ensures
            plate_id == 0 ==> res is None,
            plate_id != 0 ==> (res is None <==> forall|j: int|
                0 <= j < self.leves@.len() ==> #[trigger] self.leves@[j].plate_id != plate_id),
            res matches Some(l) ==> exists|i: int|
                0 <= i < self.leves@.len() && *l == self.leves@[i] && l.plate_id == plate_id
                    && forall|j: int| 0 <= j < i ==> #[trigger] self.leves@[j].plate_id != plate_id,
    {
        if plate_id == 0 {
            return None;
        }
        let mut i: usize = 0;
        while i < self.leves.len()
            invariant
                i <= self.leves@.len(),
                plate_id != 0,
                forall|j: int| 0 <= j < i ==> #[trigger] self.leves@[j].plate_id != plate_id,
            decreases self.leves@.len() - i,
        {
            if self.leves[i].plate_id == plate_id {
                return Some(&self.leves[i]);
            }
            i = i + 1;
        }
        None
    }

    /// Ids of the leves of one kind whose band-0 objective is `target`,
    /// in catalog order.
    pub fn leves_matching(&self, fieldcraft: bool, target: u32) -> (res: Vec<u32>)
        ensures
            res@ == matching_ids(self.leves@, fieldcraft, target),
    {
        let mut out: Vec<u32> = Vec::new();
        let mut k: usize = 0;
        let ghost cat = self.leves@;
        assert(cat.take(0) =~= Seq::<RegionalLeve>::empty());
        while k < self.leves.len()
            invariant
                k <= cat.len(),
                cat == self.leves@,
                out@ == matching_ids(cat.take(k as int), fieldcraft, target),
            decreases cat.len() - k,
        {
            assert(cat.take(k + 1).drop_last() =~= cat.take(k as int));
            let l = &self.leves[k];
            let is_kind = if fieldcraft {
                l.id >= FIELDCRAFT_LEVE_ID_MIN && l.id <= FIELDCRAFT_LEVE_ID_MAX
            } else {
                l.id >= BATTLECRAFT_LEVE_ID_MIN && l.id <= BATTLECRAFT_LEVE_ID_MAX
            };
            if is_kind && l.objective_target[0] == target {
                out.push(l.id);
            }
            k = k + 1;
        }
        assert(cat.take(cat.len() as int) =~= cat);
        out
    }

    /// Fieldcraft leves that ask for item `item_id`.
    pub fn fieldcraft_leves_for_item(&self, item_id: u32) -> (res: Vec<u32>)
        ensures
            res@ == matching_ids(self.leves@, true, item_id),
    {
        self.leves_matching(true, item_id)
    }

    /// Battlecraft leves that ask for enemies of class `class_id`.
    pub fn battlecraft_leves_for_class(&self, class_id: u32) -> (res: Vec<u32>)
        ensures
            res@ == matching_ids(self.leves@, false, class_id),
    {
        self.leves_matching(false, class_id)
    }
}

/// Number of leves of one kind in a catalog.
pub open spec fn count_kind(cat: Seq<RegionalLeve>, fieldcraft: bool) -> nat
    decreases cat.len(),
{
    if cat.len() == 0 {
        0
    } else {
        count_kind(cat.drop_last(), fieldcraft) + if (if fieldcraft {
            is_fieldcraft(cat.last().id)
        } else {
            is_battlecraft(cat.last().id)
        }) {
            1nat
        } else {
            0nat
        }
    }
}

impl RegionalLeveCatalog {
    /// Number of leves of one kind.
    pub fn count_kind(&self, fieldcraft: bool) -> (res: usize)
        ensures
            res == count_kind(self.leves@, fieldcraft),
    {
        let mut n: usize = 0;
        let mut k: usize = 0;
        let ghost cat = self.leves@;
        assert(cat.take(0) =~= Seq::<RegionalLeve>::empty());
        while k < self.leves.len()
            invariant
                k <= cat.len(),
                cat == self.leves@,
                n == count_kind(cat.take(k as int), fieldcraft),
                n <= k,
            decreases cat.len() - k,
        {
            assert(cat.take(k + 1).drop_last() =~= cat.take(k as int));
            let id = self.leves[k].id;
            let is_kind = if fieldcraft {
                id >= FIELDCRAFT_LEVE_ID_MIN && id <= FIELDCRAFT_LEVE_ID_MAX
            } else {
                id >= BATTLECRAFT_LEVE_ID_MIN && id <= BATTLECRAFT_LEVE_ID_MAX
            };
            if is_kind {
                n = n + 1;
            }
            k = k + 1;
        }
        assert(cat.take(cat.len() as int) =~= cat);
        n
    }

    /// Number of fieldcraft leves.
    pub fn num_fieldcraft(&self) -> (res: usize)
        ensures
            res == count_kind(self.leves@, true),
    {
        self.count_kind(true)
    }

    /// Number of battlecraft leves.
    pub fn num_battlecraft(&self) -> (res: usize)
        ensures
            res == count_kind(self.leves@, false),
    {
        self.count_kind(false)
    }
}

/// Whether `q` is the journal entry a freshly accepted leve `l` gets:
/// accepted, the band in the second counter, no progress, not yet saved.
pub open spec fn is_accepted_entry(q: Quest, l: RegionalLeve, band: u16) -> bool {
    &&& q.actor_id == spec_quest_actor_id(l.id)
    &&& q.name@ == l.script_name@
    &&& q.sequence == 0
    &&& q.flags == 1u32 << (ACCEPTED_FLAG_BIT as u32)
    &&& q.counter1 == 0
    &&& q.counter2 == band
    &&& q.counter3 == 0
    &&& q.counter4 == 0
    &&& q.dirty
}

/// Whether accepting leve `leve_id` at `band` goes through: the leve is
/// in the catalog, the band is one of 0..=3, it is not in the journal
/// yet and the journal has a free slot.
pub open spec fn can_accept(qs: Seq<Quest>, cat: Seq<RegionalLeve>, leve_id: u32, band: u16) -> bool {
    &&& catalog_has(cat, leve_id)
    &&& band < 4
    &&& leve_id <= crate::quest::QUEST_ID_MASK
    &&& !holds_quest(qs, leve_id)
    &&& qs.len() < JOURNAL_SLOTS
}

/// Accepts leve `leve_id` at difficulty `band`, adding its entry to the
/// journal. Returns `false`, journal unchanged, for an unknown leve, a
/// band past 3, a leve already in the journal, or a full journal.
pub fn accept_regional_leve(
    journal: &mut QuestJournal,
    catalog: &RegionalLeveCatalog,
    leve_id: u32,
    band: u16,
) -> (res: bool)
    ensures
        res == can_accept(old(journal).quests@, catalog.leves@, leve_id, band),
        res ==> final(journal).quests@.len() == old(journal).quests@.len() + 1
            && final(journal).quests@.drop_last() == old(journal).quests@ && is_accepted_entry(
            final(journal).quests@.last(),
            catalog_row(catalog.leves@, leve_id),
            band,
        ),
        !res ==> final(journal).quests@ == old(journal).quests@,
        final(journal).completed == old(journal).completed,
{
    if band >= 4 || leve_id > crate::quest::QUEST_ID_MASK {
        return false;
    }
    let l = match catalog.get(leve_id) {
        None => {
            return false;
        },
        Some(l) => l,
    };
    if journal.quests.len() >= JOURNAL_SLOTS {
        return false;
    }
    if journal.find(leve_id).is_some() {
        return false;
    }
    let mut q = Quest::new(quest_actor_id(leve_id), l.script_name.as_str());
    q.set_flag(ACCEPTED_FLAG_BIT);
    q.set_counter(crate::quest::BAND_COUNTER, band);
    assert((0u32 | (1u32 << 0u32)) == (1u32 << 0u32)) by (bit_vector);
    let ghost entry = q;
    assert(*l == catalog_row(catalog.leves@, leve_id));
    assert(is_accepted_entry(entry, *l, band));
    let added = journal.add(q);
    assert(added);
    assert(journal.quests@.drop_last() =~= old(journal).quests@);
    true
}

/// What a hand-in paid out.
#[derive(Debug, Clone, Copy, PartialEq, Eq)]
pub struct HandInOutcome {
    /// Whether the leve was handed in (and left the journal).
    pub applied: bool,
    /// Gil paid.
    pub gil_granted: i32,
    /// Item and quantity given, if the band has an item reward.
    pub item_granted: Option<(u32, u32)>,
    /// Company and seals granted: half the gil (none for a negative gil
    /// reward), for a battlecraft leve handed in by an enlisted player.
    pub seals_granted: Option<(u8, i32)>,
}

/// Whether leve `leve_id` can be handed in: its journal entry exists and
/// is complete, and the catalog knows it.
pub open spec fn can_hand_in(qs: Seq<Quest>, cat: Seq<RegionalLeve>, leve_id: u32) -> bool {
    &&& holds_quest(qs, leve_id)
    &&& flag_bit(qs[first_quest_index(qs, leve_id)].flags, COMPLETED_FLAG_BIT as int)
    &&& catalog_has(cat, leve_id)
}

/// What handing in leve `l` from journal entry `q` pays a player serving
/// company `gc_current` (0 when not enlisted).
pub open spec fn hand_in_rewards(l: RegionalLeve, q: Quest, gc_current: u8) -> HandInOutcome {
    let band = difficulty_band(q);
    let gil = l.gil_reward@[band];
    HandInOutcome {
        applied: true,
        gil_granted: gil,
        item_granted: if l.item_reward@[band] != 0 {
            Some((l.item_reward@[band], l.item_reward_quantity@[band]))
        } else {
            None
        },
        seals_granted: if is_battlecraft(l.id) && is_company(gc_current) {
            Some((gc_current, if gil > 0 { (gil / 2) as i32 } else { 0i32 }))
        } else {
            None
        },
    }
}

/// The outcome of a hand-in that does nothing.
pub open spec fn no_hand_in() -> HandInOutcome {
    HandInOutcome { applied: false, gil_granted: 0, item_granted: None, seals_granted: None }
}

/// Hands in leve `leve_id`: a completed leve leaves the journal and its
/// band's rewards are reported; anything else changes nothing.
pub fn hand_in_regional_leve(
    journal: &mut QuestJournal,
    catalog: &RegionalLeveCatalog,
    leve_id: u32,
    gc_current: u8,
) -> (res: HandInOutcome)
    ensures
        can_hand_in(old(journal).quests@, catalog.leves@, leve_id) ==> {
            &&& res == hand_in_rewards(
                catalog_row(catalog.leves@, leve_id),
                old(journal).quests@[first_quest_index(old(journal).quests@, leve_id)],
                gc_current,
            )
            &&& final(journal).quests@ == old(journal).quests@.remove(
                first_quest_index(old(journal).quests@, leve_id),
            )
        },
        !can_hand_in(old(journal).quests@, catalog.leves@, leve_id) ==> res == no_hand_in()
            && final(journal).quests@ == old(journal).quests@,
        final(journal).completed == old(journal).completed,
{
    let none = HandInOutcome { applied: false, gil_granted: 0, item_granted: None, seals_granted: None };
    let l = match catalog.get(leve_id) {
        None => {
            return none;
        },
        Some(l) => l,
    };
    let i = match journal.find(leve_id) {
        None => {
            return none;
        },
        Some(i) => i,
    };
    let ghost qs = journal.quests@;
    proof {
        lemma_first_quest_unique(qs, leve_id, i as int);
    }
    if !journal.quests[i].get_flag(COMPLETED_FLAG_BIT) {
        return none;
    }
    let q = journal.quests.remove(i);
    let band = q.difficulty_band();
    let gil = l.gil_reward[band];
    let item = l.item_reward[band];
    let item_granted = if item != 0 {
        Some((item, l.item_reward_quantity[band]))
    } else {
        None
    };
    let battle = leve_id >= BATTLECRAFT_LEVE_ID_MIN && leve_id <= BATTLECRAFT_LEVE_ID_MAX;
    let enlisted = gc_current == crate::grand_company::GC_MAELSTROM || gc_current
        == crate::grand_company::GC_TWIN_ADDER || gc_current
        == crate::grand_company::GC_IMMORTAL_FLAMES;
    let seals_granted = if battle && enlisted {
        Some((gc_current, if gil > 0 { gil / 2 } else { 0 }))
    } else {
        None
    };
    let res = HandInOutcome { applied: true, gil_granted: gil, item_granted, seals_granted };
    assert(q == qs[i as int]);
    assert(band as int == difficulty_band(q));
    res
}

/// Progress never runs past the objective, and a step that reports the
/// leve complete leaves it complete, so no later step ticks it again
/// or reports it a second time.
pub proof fn law_progress_completes_once(q: Quest, amount: u16, objective: u16, later: u16)
    requires
        counter(q, PROGRESS_COUNTER as int) <= objective,
    ensures
        counter(spec_advance(q, amount as int, objective as int).0, PROGRESS_COUNTER as int) <= objective,
        spec_advance(q, amount as int, objective as int).1 ==> spec_advance(
            spec_advance(q, amount as int, objective as int).0,
            later as int,
            objective as int,
        ) == (spec_advance(q, amount as int, objective as int).0, false),
        !flag_bit(q.flags, ACCEPTED_FLAG_BIT as int) ==> spec_advance(q, amount as int, objective as int)
            == (q, false),
{
    let (n, done) = spec_advance(q, amount as int, objective as int);
    if done {
        crate::quest::law_flag_update(
            with_counter(q, PROGRESS_COUNTER as int, progress_after(q, amount as int, objective as int) as u16),
            COMPLETED_FLAG_BIT as int,
            COMPLETED_FLAG_BIT as int,
        );
    }
}

/// Accepting is idempotent: once a leve is in the journal, accepting it
/// again (at any band) is refused.
pub proof fn law_accept_once(qs: Seq<Quest>, cat: Seq<RegionalLeve>, leve_id: u32, entry: Quest, band: u16)
    requires
        crate::quest::quest_id_of(entry.actor_id) == leve_id,
    ensures
        !can_accept(qs.push(entry), cat, leve_id, band),
{
    assert(qs.push(entry)[qs.len() as int] == entry);
}

/// Handing in is idempotent on a journal that holds each quest once:
/// after a hand-in the leve cannot be handed in again.
pub proof fn law_hand_in_once(qs: Seq<Quest>, cat: Seq<RegionalLeve>, leve_id: u32)
    requires
        crate::quest::ids_unique(qs),
        can_hand_in(qs, cat, leve_id),
    ensures
        !can_hand_in(qs.remove(first_quest_index(qs, leve_id)), cat, leve_id),
{
    crate::quest::lemma_first_match_exists(qs, leve_id);
    let i = first_quest_index(qs, leve_id);
    assert(is_first_match(qs, leve_id, i));
    let r = qs.remove(i);
    if holds_quest(r, leve_id) {
        let j = choose|j: int| 0 <= j < r.len() && crate::quest::quest_id_of(#[trigger] r[j].actor_id) == leve_id;
        let j0 = if j < i { j } else { j + 1 };
        assert(r[j] == qs[j0]);
        if j0 < i {
            assert(crate::quest::quest_id_of(qs[j0].actor_id) != leve_id);
        } else {
            assert(crate::quest::quest_id_of(qs[i].actor_id) != crate::quest::quest_id_of(qs[j0].actor_id));
        }
    }
}

proof fn lemma_first_quest_unique(qs: Seq<Quest>, id: u32, i: int)
    requires
        is_first_match(qs, id, i),
    ensures
        first_quest_index(qs, id) == i,
{
    let k = first_quest_index(qs, id);
    assert(is_first_match(qs, id, k));
    if k < i {
        assert(crate::quest::quest_id_of(qs[k].actor_id) != id);
    } else if k > i {
        assert(crate::quest::quest_id_of(qs[i].actor_id) != id);
    }
}

proof fn lemma_first_leve_unique(cat: Seq<RegionalLeve>, id: u32, i: int)
    requires
        is_first_leve(cat, id, i),
    ensures
        catalog_row(cat, id) == cat[i],
{
    let k = choose|k: int| is_first_leve(cat, id, k);
    assert(is_first_leve(cat, id, k));
    if k < i {
        assert(cat[k].id != id);
    } else if k > i {
        assert(cat[i].id != id);
    }
}

/// A hand-in pays the band recorded in the leve's second counter (band
/// 0 when the counter holds no band): that band's gil and item; and for
/// a battlecraft leve (ids 140001 to 149999) handed in by a member of
/// one of the three companies, seals of that company worth half the gil
/// paid (none for a gil reward under 1). A fieldcraft leve, or a player
/// outside the companies, earns no seals.
pub proof fn law_hand_in_pays_the_recorded_band(l: RegionalLeve, q: Quest, gc_current: u8)
    ensures
        hand_in_rewards(l, q, gc_current).applied,
        q.counter2 < 4 ==> hand_in_rewards(l, q, gc_current).gil_granted == l.gil_reward@[q.counter2 as int],
        q.counter2 >= 4 ==> hand_in_rewards(l, q, gc_current).gil_granted == l.gil_reward@[0],
        q.counter2 < 4 && l.item_reward@[q.counter2 as int] != 0 ==> hand_in_rewards(l, q, gc_current).item_granted
            == Some((l.item_reward@[q.counter2 as int], l.item_reward_quantity@[q.counter2 as int])),
        q.counter2 < 4 && l.item_reward@[q.counter2 as int] == 0 ==> hand_in_rewards(
            l,
            q,
            gc_current,
        ).item_granted is None,
        140_001 <= l.id <= 149_999 && 1 <= gc_current <= 3 ==> hand_in_rewards(l, q, gc_current).seals_granted
            == Some(
            (
                gc_current,
                if hand_in_rewards(l, q, gc_current).gil_granted > 0 {
                    (hand_in_rewards(l, q, gc_current).gil_granted / 2) as i32
                } else {
                    0i32
                },
            ),
        ),
        !(140_001 <= l.id <= 149_999 && 1 <= gc_current <= 3) ==> hand_in_rewards(
            l,
            q,
            gc_current,
        ).seals_granted is None,
{
}

} // verus!
