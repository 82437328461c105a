//! The class hotbar: placing newly learned commands in free slots.

use vstd::prelude::*;

verus! {

/// Slots on a class hotbar.
pub const HOTBAR_SLOTS: u16 = 30;

/// High bits a command id carries on the hotbar.
pub const COMMAND_ID_MASK: u32 = 0xA0F0_0000;

/// Index of hotbar slot 0 among the `charaWork.command` entries.
pub const HOTBAR_WIRE_SLOT_BASE: u16 = 32;

/// One occupied hotbar slot.
#[derive(Debug, Clone, Copy, PartialEq, Eq)]
pub struct HotbarEntry {
    pub hotbar_slot: u16,
    /// Command id with the `0xA0F00000` mask.
    pub command_id: u32,
    /// Unix second at which the command is ready again.
    pub recast_time: u32,
}

/// Whether some entry occupies `slot`.
pub open spec fn slot_taken(bar: Seq<HotbarEntry>, slot: int) -> bool {
    exists|i: int| 0 <= i < bar.len() && #[trigger] bar[i].hotbar_slot == slot
}

/// Whether `slot` is the lowest free slot of the bar.
pub open spec fn is_lowest_free(bar: Seq<HotbarEntry>, slot: int) -> bool {
    &&& 0 <= slot < HOTBAR_SLOTS
    &&& !slot_taken(bar, slot)
    &&& forall|s: int| 0 <= s < slot ==> #[trigger] slot_taken(bar, s)
}

/// Whether every slot of the bar is taken.
pub open spec fn bar_full(bar: Seq<HotbarEntry>) -> bool {
    forall|s: int| 0 <= s < HOTBAR_SLOTS ==> #[trigger] slot_taken(bar, s)
}

/// A command id as the hotbar carries it.
pub open spec fn spec_masked_command(command_id: u32) -> u32 {
    command_id | COMMAND_ID_MASK
}

/// A command id as the hotbar carries it: `0xA0F00000 | command_id`.
pub fn masked_command(command_id: u32) -> (res: u32)
    ensures
        res == spec_masked_command(command_id),
{
    command_id | COMMAND_ID_MASK
}

/// Index of a hotbar slot among the `charaWork.command` entries.
pub fn wire_slot(slot: u16) -> (res: u16)
    requires
        slot < HOTBAR_SLOTS,
    ensures
        res == HOTBAR_WIRE_SLOT_BASE + slot,
{
    HOTBAR_WIRE_SLOT_BASE + slot
}

fn is_taken(bar: &Vec<HotbarEntry>, slot: u16) -> (res: bool)
    ensures
        res == slot_taken(bar@, slot as int),
{
    let mut i: usize = 0;
    while i < bar.len()
        invariant
            i <= bar@.len(),
            forall|j: int| 0 <= j < i ==> #[trigger] bar@[j].hotbar_slot != slot,
        decreases bar@.len() - i,
    {
        if bar[i].hotbar_slot == slot {
            return true;
        }
        i = i + 1;
    }
    false
}

/// The lowest free slot of the bar, or `None` when all thirty are taken.
pub fn first_free_slot(bar: &Vec<HotbarEntry>) -> (res: Option<u16>)
    ensures
        res matches Some(s) ==> is_lowest_free(bar@, s as int),
        res is None ==> bar_full(bar@),
{
    let mut s: u16 = 0;
    while s < HOTBAR_SLOTS
        invariant
            s <= HOTBAR_SLOTS,
            forall|t: int| 0 <= t < s ==> #[trigger] slot_taken(bar@, t),
        decreases HOTBAR_SLOTS - s,
    {
        if !is_taken(bar, s) {
            return Some(s);
        }
        s = s + 1;
    }
    None
}

/// Places a newly learned command in the lowest free slot, starting its
/// recast (`recast_time` is when it is ready). A full bar is left as it
/// is and `None` comes back.
pub fn equip_learned_command(bar: &mut Vec<HotbarEntry>, command_id: u32, recast_time: u32) -> (res:
    Option<u16>)
    ensures
        res matches Some(s) ==> is_lowest_free(old(bar)@, s as int) && final(bar)@ == old(bar)@.push(
            HotbarEntry {
                hotbar_slot: s,
                command_id: spec_masked_command(command_id),
                recast_time,
            },
        ),
        res is None ==> bar_full(old(bar)@) && final(bar)@ == old(bar)@,
{
    match first_free_slot(bar) {
        Some(s) => {
            bar.push(HotbarEntry { hotbar_slot: s, command_id: masked_command(command_id), recast_time });
            Some(s)
        },
        None => None,
    }
}

/// Commands learned together land in different slots: once a command
/// takes the lowest free slot, that slot is no longer free, and the
/// next free slot lies above it.
pub proof fn law_learned_commands_take_distinct_slots(bar: Seq<HotbarEntry>, slot: u16, command_id: u32, recast_time: u32, next: int)
    requires
        is_lowest_free(bar, slot as int),
        is_lowest_free(bar.push(HotbarEntry { hotbar_slot: slot, command_id: spec_masked_command(command_id), recast_time }), next),
    ensures
        next > slot,
{
    let after = bar.push(HotbarEntry { hotbar_slot: slot, command_id: spec_masked_command(command_id), recast_time });
    assert(after[bar.len() as int].hotbar_slot == slot);
    assert(slot_taken(after, slot as int));
    if next < slot {
        assert(slot_taken(bar, next));
        let i = choose|i: int| 0 <= i < bar.len() && #[trigger] bar[i].hotbar_slot == next;
        assert(after[i] == bar[i]);
    }
}

/// A battle command a class learns on reaching a level.
#[derive(Debug, Clone, Copy, PartialEq, Eq)]
pub struct CommandUnlock {
    pub command_id: u32,
    pub class_id: u8,
    /// Level at which the command is learned.
    pub level: i16,
    /// Seconds the command takes to recast.
    pub recast_secs: u32,
}

/// The commands class `class_id` learns at exactly `level`, in catalog
/// order.
pub open spec fn unlocks_at(u: Seq<CommandUnlock>, class_id: u8, level: int) -> Seq<CommandUnlock>
    decreases u.len(),
{
    if u.len() == 0 {
        Seq::empty()
    } else if u.last().class_id == class_id && u.last().level == level {
        unlocks_at(u.drop_last(), class_id, level).push(u.last())
    } else {
        unlocks_at(u.drop_last(), class_id, level)
    }
}

/// The commands learned going from level `lo` to level `hi`: those of
/// each level above `lo` up to `hi`, lowest level first.
pub open spec fn unlocks_between(u: Seq<CommandUnlock>, class_id: u8, lo: int, hi: int) -> Seq<CommandUnlock>
    decreases hi - lo,
{
    if hi <= lo {
        Seq::empty()
    } else {
        unlocks_between(u, class_id, lo, hi - 1) + unlocks_at(u, class_id, hi)
    }
}

/// The lowest free slot at or above `s`.
pub open spec fn lowest_free_from(bar: Seq<HotbarEntry>, s: int) -> Option<int>
    decreases HOTBAR_SLOTS - s,
{
    if s < 0 || s >= HOTBAR_SLOTS {
        None
    } else if !slot_taken(bar, s) {
        Some(s)
    } else {
        lowest_free_from(bar, s + 1)
    }
}

/// The lowest free slot of the bar, if any.
pub open spec fn lowest_free(bar: Seq<HotbarEntry>) -> Option<int> {
    lowest_free_from(bar, 0)
}

/// When a command started now with a recast of `secs` is ready again
/// (held at the last representable second).
pub open spec fn ready_at(now: u32, secs: u32) -> u32 {
    if now + secs > u32::MAX {
        u32::MAX
    } else {
        (now + secs) as u32
    }
}

/// The bar after equipping one learned command at time `now`, and the
/// slot it took.
pub open spec fn equip_step(bar: Seq<HotbarEntry>, c: CommandUnlock, now: u32) -> (Seq<HotbarEntry>, Option<u16>) {
    match lowest_free(bar) {
        Some(s) => (
            bar.push(
                HotbarEntry {
                    hotbar_slot: s as u16,
                    command_id: spec_masked_command(c.command_id),
                    recast_time: ready_at(now, c.recast_secs),
                },
            ),
            Some(s as u16),
        ),
        None => (bar, None),
    }
}

/// The bar after equipping learned commands one after the other, and
/// the slot each took.
pub open spec fn equip_all(bar: Seq<HotbarEntry>, cs: Seq<CommandUnlock>, now: u32) -> (Seq<HotbarEntry>, Seq<Option<u16>>)
    decreases cs.len(),
{
    if cs.len() == 0 {
        (bar, Seq::empty())
    } else {
        let (b, r) = equip_all(bar, cs.drop_last(), now);
        let (b2, o) = equip_step(b, cs.last(), now);
        (b2, r.push(o))
    }
}

proof fn lemma_lowest_free_from(bar: Seq<HotbarEntry>, t: int, s: int)
    requires
        0 <= t <= s,
        is_lowest_free(bar, s),
    ensures
        lowest_free_from(bar, t) == Some(s),
    decreases s - t,
{
    if t < s {
        assert(slot_taken(bar, t));
        lemma_lowest_free_from(bar, t + 1, s);
    }
}

proof fn lemma_full_from(bar: Seq<HotbarEntry>, t: int)
    requires
        0 <= t,
        bar_full(bar),
    ensures
        lowest_free_from(bar, t) is None,
    decreases HOTBAR_SLOTS - t,
{
    if t < HOTBAR_SLOTS {
        assert(slot_taken(bar, t));
        lemma_full_from(bar, t + 1);
    }
}

/// The commands class `class_id` learns at exactly `level`.
fn commands_at_level(unlocks: &Vec<CommandUnlock>, class_id: u8, level: i16) -> (res: Vec<CommandUnlock>)
    ensures
        res@ == unlocks_at(unlocks@, class_id, level as int),
{
    let ghost u = unlocks@;
    let mut out: Vec<CommandUnlock> = Vec::new();
    let mut k: usize = 0;
    assert(u.take(0) =~= Seq::<CommandUnlock>::empty());
    while k < unlocks.len()
        invariant
            k <= u.len(),
            u == unlocks@,
            out@ == unlocks_at(u.take(k as int), class_id, level as int),
        decreases u.len() - k,
    {
        assert(u.take(k + 1).drop_last() =~= u.take(k as int));
        let c = unlocks[k];
        if c.class_id == class_id && c.level == level {
            out.push(c);
        }
        k = k + 1;
    }
    assert(u.take(u.len() as int) =~= u);
    out
}

/// The commands class `class_id` learns going from `old_level` to
/// `new_level`: those of each level passed, lowest level first, and
/// within a level in catalog order.
pub fn commands_learned(unlocks: &Vec<CommandUnlock>, class_id: u8, old_level: i16, new_level: i16) -> (res: Vec<CommandUnlock>)
    ensures
        res@ == unlocks_between(unlocks@, class_id, old_level as int, new_level as int),
{
    let mut out: Vec<CommandUnlock> = Vec::new();
    if new_level <= old_level {
        return out;
    }
    let mut lvl: i16 = old_level;
    while lvl < new_level
        invariant
            old_level <= lvl <= new_level,
            out@ == unlocks_between(unlocks@, class_id, old_level as int, lvl as int),
        decreases new_level - lvl,
    {
        lvl = lvl + 1;
        let mut at = commands_at_level(unlocks, class_id, lvl);
        out.append(&mut at);
    }
    out
}

/// Equips learned commands in order at time `now`, each in the lowest
/// free slot with its recast started; a command that finds the bar full
/// is skipped. Returns the slot each one took.
pub fn equip_learned_commands(bar: &mut Vec<HotbarEntry>, learned: &Vec<CommandUnlock>, now: u32) -> (res: Vec<Option<u16>>)
    ensures
        (final(bar)@, res@) == equip_all(old(bar)@, learned@, now),
{
    let ghost start = bar@;
    let ghost cs = learned@;
    let mut out: Vec<Option<u16>> = Vec::new();
    let mut k: usize = 0;
    assert(cs.take(0) =~= Seq::<CommandUnlock>::empty());
    while k < learned.len()
        invariant
            k <= cs.len(),
            cs == learned@,
            (bar@, out@) == equip_all(start, cs.take(k as int), now),
        decreases cs.len() - k,
    {
        assert(cs.take(k + 1).drop_last() =~= cs.take(k as int));
        let c = learned[k];
        let ready: u32 = if c.recast_secs > u32::MAX - now {
            u32::MAX
        } else {
            now + c.recast_secs
        };
        let ghost before = bar@;
        let r = equip_learned_command(bar, c.command_id, ready);
        proof {
            match r {
                Some(s) => lemma_lowest_free_from(before, 0, s as int),
                None => lemma_full_from(before, 0),
            }
        }
        out.push(r);
        k = k + 1;
    }
    assert(cs.take(cs.len() as int) =~= cs);
    out
}

proof fn lemma_lowest_free_is_free(bar: Seq<HotbarEntry>, t: int)
    ensures
        lowest_free_from(bar, t) matches Some(s) ==> 0 <= s < HOTBAR_SLOTS && !slot_taken(bar, s),
    decreases HOTBAR_SLOTS - t,
{
    if 0 <= t < HOTBAR_SLOTS && slot_taken(bar, t) {
        lemma_lowest_free_is_free(bar, t + 1);
    }
}

proof fn lemma_equip_all_slots(bar: Seq<HotbarEntry>, cs: Seq<CommandUnlock>, now: u32)
    ensures
        ({
            let (b, r) = equip_all(bar, cs, now);
            &&& r.len() == cs.len()
            &&& bar.len() <= b.len()
            &&& forall|i: int| 0 <= i < bar.len() ==> b[i] == bar[i]
            &&& forall|i: int| 0 <= i < r.len() && r[i] is Some ==> slot_taken(b, r[i].unwrap() as int)
                && !slot_taken(bar, r[i].unwrap() as int)
            &&& forall|i: int, j: int|
                0 <= i < j < r.len() && r[i] is Some && r[j] is Some ==> r[i].unwrap() != r[j].unwrap()
        }),
    decreases cs.len(),
{
    if cs.len() > 0 {
        lemma_equip_all_slots(bar, cs.drop_last(), now);
        let (b, r) = equip_all(bar, cs.drop_last(), now);
        lemma_lowest_free_is_free(b, 0);
        let (b2, o) = equip_step(b, cs.last(), now);
        let r2 = r.push(o);
        assert(equip_all(bar, cs, now) == (b2, r2));
        if let Some(s) = lowest_free(b) {
            assert(b2[b.len() as int].hotbar_slot == s as u16);
            assert(slot_taken(b2, s));
            assert forall|i: int| 0 <= i < r.len() && r[i] is Some implies slot_taken(b2, r[i].unwrap() as int) by {
                let k = choose|k: int| 0 <= k < b.len() && #[trigger] b[k].hotbar_slot == r[i].unwrap() as int;
                assert(b2[k] == b[k]);
            }
            assert forall|i: int| 0 <= i < r.len() && r[i] is Some implies r[i].unwrap() != s as u16 by {
                assert(slot_taken(b, r[i].unwrap() as int));
            }
            if slot_taken(bar, s) {
                let k = choose|k: int| 0 <= k < bar.len() && #[trigger] bar[k].hotbar_slot == s;
                assert(b[k] == bar[k]);
            }
            assert(forall|i: int| 0 <= i < r.len() ==> r2[i] == r[i]);
            assert(r2[r.len() as int] == Some(s as u16));
        } else {
            assert(forall|i: int| 0 <= i < r.len() ==> r2[i] == r[i]);
        }
    }
}

/// Commands learned over a multi-level gain never share a slot, and
/// never take one that was in use before the gain.
pub proof fn law_level_up_commands_take_distinct_free_slots(bar: Seq<HotbarEntry>, cs: Seq<CommandUnlock>, now: u32)
    ensures
        forall|i: int, j: int|
            0 <= i < j < cs.len() && (#[trigger] equip_all(bar, cs, now).1[i]) is Some && (#[trigger] equip_all(
                bar,
                cs,
                now,
            ).1[j]) is Some ==> equip_all(bar, cs, now).1[i] != equip_all(bar, cs, now).1[j],
        forall|i: int|
            0 <= i < cs.len() && (#[trigger] equip_all(bar, cs, now).1[i]) is Some ==> !slot_taken(
                bar,
                equip_all(bar, cs, now).1[i].unwrap() as int,
            ),
{
    lemma_equip_all_slots(bar, cs, now);
}

/// Pugilist.
pub const CLASSID_PGL: u8 = 2;

/// Gladiator.
pub const CLASSID_GLA: u8 = 3;

/// Marauder.
pub const CLASSID_MRD: u8 = 4;

/// Archer.
pub const CLASSID_ARC: u8 = 7;

/// Lancer.
pub const CLASSID_LNC: u8 = 8;

/// Thaumaturge.
pub const CLASSID_THM: u8 = 22;

/// Conjurer.
pub const CLASSID_CNJ: u8 = 23;

/// Paladin, the Gladiator's job.
pub const JOBID_PLD: u8 = 16;

/// The job a class grows into, whose bar mirrors the class's learned
/// commands: Monk 15, Paladin 16, Warrior 17, Bard 18, Dragoon 19, Black
/// Mage 26, White Mage 27; other classes have none.
pub open spec fn spec_job_of_class(class_id: u8) -> Option<u8> {
    if class_id == CLASSID_PGL {
        Some(15u8)
    } else if class_id == CLASSID_GLA {
        Some(JOBID_PLD)
    } else if class_id == CLASSID_MRD {
        Some(17u8)
    } else if class_id == CLASSID_ARC {
        Some(18u8)
    } else if class_id == CLASSID_LNC {
        Some(19u8)
    } else if class_id == CLASSID_THM {
        Some(26u8)
    } else if class_id == CLASSID_CNJ {
        Some(27u8)
    } else {
        None
    }
}

/// The job of class `class_id`, if it has one.
pub fn job_of_class(class_id: u8) -> (res: Option<u8>)
    ensures
        res == spec_job_of_class(class_id),
{
    if class_id == CLASSID_PGL {
        Some(15)
    } else if class_id == CLASSID_GLA {
        Some(JOBID_PLD)
    } else if class_id == CLASSID_MRD {
        Some(17)
    } else if class_id == CLASSID_ARC {
        Some(18)
    } else if class_id == CLASSID_LNC {
        Some(19)
    } else if class_id == CLASSID_THM {
        Some(26)
    } else if class_id == CLASSID_CNJ {
        Some(27)
    } else {
        None
    }
}

/// Equips the commands class `class_id` learned on a level-up, at time
/// `now`, into the class's bar and, when the class has a job, into the
/// job's bar too: on each bar, one after the other, each in that bar's
/// lowest free slot with its recast started, skipped where the bar is
/// full. Returns the slots taken on the class bar and on the job bar
/// (none on the job bar for a class without a job).
pub fn equip_level_up_commands(
    class_bar: &mut Vec<HotbarEntry>,
    job_bar: &mut Vec<HotbarEntry>,
    class_id: u8,
    learned: &Vec<CommandUnlock>,
    now: u32,
) -> (res: (Vec<Option<u16>>, Vec<Option<u16>>))
    ensures
        (final(class_bar)@, res.0@) == equip_all(old(class_bar)@, learned@, now),
        spec_job_of_class(class_id) is Some ==> (final(job_bar)@, res.1@) == equip_all(
            old(job_bar)@,
            learned@,
            now,
        ),
        spec_job_of_class(class_id) is None ==> final(job_bar)@ == old(job_bar)@ && res.1@.len() == 0,
{
    let on_class = equip_learned_commands(class_bar, learned, now);
    let on_job = match job_of_class(class_id) {
        Some(_) => equip_learned_commands(job_bar, learned, now),
        None => Vec::new(),
    };
    (on_class, on_job)
}

} // verus!
