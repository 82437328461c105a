//! Combat decisions: whether a command press goes through, the TP a
//! swing banks, what the death pass does to a dead actor, and when a
//! rented mount is taken back.

use vstd::prelude::*;

verus! {

/// Out of combat, weapon sheathed.
pub const MAIN_STATE_PASSIVE: u16 = 0;

/// Dead.
pub const MAIN_STATE_DEAD: u16 = 1;

/// In combat, weapon drawn.
pub const MAIN_STATE_ACTIVE: u16 = 2;

/// Riding a mount.
pub const MAIN_STATE_MOUNTED: u16 = 15;

/// Actor id that stands for "no actor".
pub const INVALID_ACTORID: u32 = 0xC000_0000;

/// Battle-log text for a command used with the weapon sheathed.
pub const TEXT_NOT_IN_ACTIVE_MODE: u16 = 32503;

/// Battle-log text for a command still recasting.
pub const TEXT_RECAST_PENDING: u16 = 32535;

/// Battle-log text for a target out of the command's range.
pub const TEXT_OUT_OF_RANGE: u16 = 32539;

/// Most TP an actor banks.
pub const MAX_TP: u16 = 3000;

/// Seconds a defeated enemy stays down before it respawns.
pub const BNPC_DEFAULT_RESPAWN_SECS: u32 = 30;

/// What a command press leads to.
#[derive(Debug, Clone, Copy, PartialEq, Eq)]
pub enum CommandPress {
    /// The command starts.
    Execute,
    /// Refused with battle-log text `text_id`.
    Refused { text_id: u16 },
    /// Refused for lack of TP.
    NotEnoughTp,
}

/// The outcome of pressing a command, checked in this order: the weapon
/// must be drawn, the command's recast over (`recast_time <= now`), the
/// target in range, and the TP there.
pub open spec fn spec_command_press(
    main_state: u16,
    recast_time: u32,
    now: u32,
    in_range: bool,
    tp: u16,
    tp_cost: u16,
) -> CommandPress {
    if main_state != MAIN_STATE_ACTIVE {
        CommandPress::Refused { text_id: TEXT_NOT_IN_ACTIVE_MODE }
    } else if recast_time > now {
        CommandPress::Refused { text_id: TEXT_RECAST_PENDING }
    } else if !in_range {
        CommandPress::Refused { text_id: TEXT_OUT_OF_RANGE }
    } else if tp < tp_cost {
        CommandPress::NotEnoughTp
    } else {
        CommandPress::Execute
    }
}

/// Decides a command press.
pub fn command_press(
    main_state: u16,
    recast_time: u32,
    now: u32,
    in_range: bool,
    tp: u16,
    tp_cost: u16,
) -> (res: CommandPress)
    ensures
        res == spec_command_press(main_state, recast_time, now, in_range, tp, tp_cost),
{
    if main_state != MAIN_STATE_ACTIVE {
        CommandPress::Refused { text_id: TEXT_NOT_IN_ACTIVE_MODE }
    } else if recast_time > now {
        CommandPress::Refused { text_id: TEXT_RECAST_PENDING }
    } else if !in_range {
        CommandPress::Refused { text_id: TEXT_OUT_OF_RANGE }
    } else if tp < tp_cost {
        CommandPress::NotEnoughTp
    } else {
        CommandPress::Execute
    }
}

/// TP after a landed swing with a weapon of `delay_ms`: one TP per ten
/// milliseconds of delay, up to `MAX_TP`.
pub open spec fn spec_tp_after_swing(tp: u16, delay_ms: u32) -> u16 {
    let t = tp + delay_ms / 10;
    if t > MAX_TP {
        MAX_TP
    } else {
        t as u16
    }
}

/// TP after a landed swing.
pub fn tp_after_swing(tp: u16, delay_ms: u32) -> (res: u16)
    ensures
        res == spec_tp_after_swing(tp, delay_ms),
{
    let t: u64 = tp as u64 + (delay_ms / 10) as u64;
    if t > MAX_TP as u64 {
        MAX_TP
    } else {
        t as u16
    }
}

/// TP after a command that costs `cost` (never below zero).
pub fn tp_after_command(tp: u16, cost: u16) -> (res: u16)
    ensures
        res == if tp > cost {
            tp - cost
        } else {
            0
        },
{
    if tp > cost {
        tp - cost
    } else {
        0
    }
}

/// What the death pass does to a dead actor.
#[derive(Debug, Clone, Copy, PartialEq, Eq)]
pub enum DeathTick {
    /// Nothing yet.
    StayDown,
    /// Brought back where it lies (a raise effect).
    Revive,
    /// An enemy back at its spawn point.
    Respawn,
}

/// The death pass over a dead actor: a raise effect revives any actor at
/// once; an enemy without one respawns once `BNPC_DEFAULT_RESPAWN_SECS`
/// have passed since it died; a player without one stays down.
pub open spec fn spec_death_tick(is_enemy: bool, has_raise: bool, time_of_death: u32, now: u32) -> DeathTick {
    if has_raise {
        DeathTick::Revive
    } else if is_enemy && now >= time_of_death + BNPC_DEFAULT_RESPAWN_SECS {
        DeathTick::Respawn
    } else {
        DeathTick::StayDown
    }
}

/// Decides the death pass for one dead actor.
pub fn death_tick(is_enemy: bool, has_raise: bool, time_of_death: u32, now: u32) -> (res: DeathTick)
    ensures
        res == spec_death_tick(is_enemy, has_raise, time_of_death, now),
{
    if has_raise {
        DeathTick::Revive
    } else if is_enemy && now as u64 >= time_of_death as u64 + BNPC_DEFAULT_RESPAWN_SECS as u64 {
        DeathTick::Respawn
    } else {
        DeathTick::StayDown
    }
}

/// Hit points and state of a combatant.
#[derive(Debug, Clone, Copy, PartialEq, Eq)]
pub struct Vitals {
    pub hp: i32,
    pub max_hp: i32,
    pub mp: i32,
    pub max_mp: i32,
    pub main_state: u16,
}

/// Brings an actor back: full HP and MP, weapon sheathed.
pub fn revive(v: Vitals) -> (res: Vitals)
    ensures
        res == (Vitals { hp: v.max_hp, mp: v.max_mp, main_state: MAIN_STATE_PASSIVE, ..v }),
{
    Vitals { hp: v.max_hp, mp: v.max_mp, main_state: MAIN_STATE_PASSIVE, ..v }
}

/// Takes `damage` off an actor's HP (never below zero); an actor that
/// reaches zero is dead.
pub fn take_damage(v: Vitals, damage: i32) -> (res: Vitals)
    requires
        damage >= 0,
    ensures
        res.hp == if v.hp > damage {
            v.hp - damage
        } else {
            0
        },
        res.main_state == if res.hp == 0 {
            MAIN_STATE_DEAD
        } else {
            v.main_state
        },
        res.max_hp == v.max_hp && res.mp == v.mp && res.max_mp == v.max_mp,
{
    let hp = if v.hp > damage {
        v.hp - damage
    } else {
        0
    };
    let main_state = if hp == 0 {
        MAIN_STATE_DEAD
    } else {
        v.main_state
    };
    Vitals { hp, main_state, ..v }
}

/// A player's mount and the rental that may back it.
#[derive(Debug, Clone, Copy, PartialEq, Eq)]
pub struct MountState {
    /// 0 on foot, else the mount ridden.
    pub mount_state: u8,
    /// Unix time at which a rented mount is due back; 0 for none.
    pub rental_expire_time: u32,
    /// Minutes of rental shown as left.
    pub rental_min_left: u8,
    pub main_state: u16,
}

/// The state after the rental pass at time `now`: a rental that has
/// run out (its time is not after `now`) puts the player on foot,
/// weapon sheathed, with no rental left; anything else stays as it was.
pub open spec fn spec_rental_tick(m: MountState, now: u32) -> MountState {
    if m.rental_expire_time != 0 && m.rental_expire_time <= now {
        MountState { mount_state: 0, rental_expire_time: 0, rental_min_left: 0, main_state: MAIN_STATE_PASSIVE }
    } else {
        m
    }
}

/// Runs the rental pass for one player at time `now`.
pub fn rental_tick(m: MountState, now: u32) -> (res: MountState)
    ensures
        res == spec_rental_tick(m, now),
{
    if m.rental_expire_time != 0 && m.rental_expire_time <= now {
        MountState { mount_state: 0, rental_expire_time: 0, rental_min_left: 0, main_state: MAIN_STATE_PASSIVE }
    } else {
        m
    }
}

/// The rental pass takes a mount back once: a second pass at the same
/// time changes nothing, once it has acted no later pass changes
/// anything, and a pass before the due time leaves the player riding.
pub proof fn law_rental_returns_once(m: MountState, now: u32, later: u32)
    ensures
        spec_rental_tick(spec_rental_tick(m, now), now) == spec_rental_tick(m, now),
        m.rental_expire_time != 0 && m.rental_expire_time <= now ==> spec_rental_tick(
            spec_rental_tick(m, now),
            later,
        ) == spec_rental_tick(m, now),
        now < m.rental_expire_time ==> spec_rental_tick(m, now) == m,
{
}

/// How much one actor is hated.
#[derive(Debug, Clone, Copy, PartialEq, Eq)]
pub struct HateEntry {
    pub actor_id: u32,
    /// Enmity piled up so far (held at `u32::MAX`).
    pub cumulative_enmity: u32,
}

/// The actors an enemy hates, in the order they drew its attention.
pub struct HateContainer {
    pub entries: Vec<HateEntry>,
}

/// Whether entry `i` is the first for actor `id`.
pub open spec fn is_hate_entry(es: Seq<HateEntry>, id: u32, i: int) -> bool {
    &&& 0 <= i < es.len()
    &&& es[i].actor_id == id
    &&& forall|j: int| 0 <= j < i ==> #[trigger] es[j].actor_id != id
}

/// Whether actor `id` is on the hate list.
pub open spec fn hates(es: Seq<HateEntry>, id: u32) -> bool {
    exists|i: int| 0 <= i < es.len() && #[trigger] es[i].actor_id == id
}

/// Whether entry `i` is the first of those with the most enmity.
pub open spec fn is_most_hated(es: Seq<HateEntry>, i: int) -> bool {
    &&& 0 <= i < es.len()
    &&& forall|j: int| 0 <= j < es.len() ==> #[trigger] es[j].cumulative_enmity <= es[i].cumulative_enmity
    &&& forall|j: int| 0 <= j < i ==> #[trigger] es[j].cumulative_enmity < es[i].cumulative_enmity
}

/// `a + b`, held at `u32::MAX`.
pub open spec fn enmity_after(a: u32, b: u32) -> u32 {
    if a + b > u32::MAX {
        u32::MAX
    } else {
        (a + b) as u32
    }
}

impl HateContainer {
    /// An empty hate list.
    pub fn new() -> (r: Self)
        ensures
            r.entries@.len() == 0,
    {
        HateContainer { entries: Vec::new() }
    }

    fn find(&self, id: u32) -> (res: Option<usize>)
        ensures
            res is None <==> !hates(self.entries@, id),
            res matches Some(i) ==> is_hate_entry(self.entries@, id, i as int),
    {
        let mut i: usize = 0;
        while i < self.entries.len()
            invariant
                i <= self.entries@.len(),
                forall|j: int| 0 <= j < i ==> #[trigger] self.entries@[j].actor_id != id,
            decreases self.entries@.len() - i,
        {
            if self.entries[i].actor_id == id {
                return Some(i);
            }
            i = i + 1;
        }
        None
    }

    /// Adds `amount` enmity toward actor `id`, putting it on the list
    /// if it is not there yet.
    pub fn add(&mut self, id: u32, amount: u32)
        ensures
            hates(old(self).entries@, id) ==> exists|i: int|
                #![trigger is_hate_entry(old(self).entries@, id, i)]
                is_hate_entry(old(self).entries@, id, i) && final(self).entries@ == old(self).entries@.update(
                    i,
                    HateEntry {
                        actor_id: id,
                        cumulative_enmity: enmity_after(old(self).entries@[i].cumulative_enmity, amount),
                    },
                ),
            !hates(old(self).entries@, id) ==> final(self).entries@ == old(self).entries@.push(
                HateEntry { actor_id: id, cumulative_enmity: amount },
            ),
    {
        match self.find(id) {
            Some(i) => {
                let c = self.entries[i].cumulative_enmity;
                let total: u32 = if c > u32::MAX - amount {
                    u32::MAX
                } else {
                    c + amount
                };
                self.entries.set(i, HateEntry { actor_id: id, cumulative_enmity: total });
                assert(is_hate_entry(old(self).entries@, id, i as int));
            },
            None => {
                self.entries.push(HateEntry { actor_id: id, cumulative_enmity: amount });
            },
        }
    }

    /// Enmity piled up toward actor `id`, if it is on the list.
    pub fn get(&self, id: u32) -> (res: Option<u32>)
        ensures
            res is None <==> !hates(self.entries@, id),
            res matches Some(e) ==> exists|i: int|
                #![trigger is_hate_entry(self.entries@, id, i)]
                is_hate_entry(self.entries@, id, i) && e == self.entries@[i].cumulative_enmity,
    {
        match self.find(id) {
            Some(i) => {
                assert(is_hate_entry(self.entries@, id, i as int));
                Some(self.entries[i].cumulative_enmity)
            },
            None => None,
        }
    }

    /// The actor with the most enmity; of equals, the one that drew
    /// attention first.
    pub fn most_hated(&self) -> (res: Option<u32>)
        ensures
            res is None <==> self.entries@.len() == 0,
            res matches Some(id) ==> exists|i: int|
                #![trigger is_most_hated(self.entries@, i)]
                is_most_hated(self.entries@, i) && self.entries@[i].actor_id == id,
    {
        if self.entries.len() == 0 {
            return None;
        }
        let mut best: usize = 0;
        let mut i: usize = 1;
        while i < self.entries.len()
            invariant
                1 <= i <= self.entries@.len(),
                best < i,
                forall|j: int| 0 <= j < i ==> #[trigger] self.entries@[j].cumulative_enmity
                    <= self.entries@[best as int].cumulative_enmity,
                forall|j: int| 0 <= j < best ==> #[trigger] self.entries@[j].cumulative_enmity
                    < self.entries@[best as int].cumulative_enmity,
            decreases self.entries@.len() - i,
        {
            if self.entries[i].cumulative_enmity > self.entries[best].cumulative_enmity {
                best = i;
            }
            i = i + 1;
        }
        assert(is_most_hated(self.entries@, best as int));
        Some(self.entries[best].actor_id)
    }

    /// Empties the list.
    pub fn clear(&mut self)
        ensures
            final(self).entries@.len() == 0,
    {
        self.entries.clear();
    }
}

/// Enmity only piles up: adding enmity toward an actor never lowers
/// what any actor on the list had, and the actor it went to is on the
/// list afterwards with at least the amount added.
pub proof fn law_hate_only_grows(es: Seq<HateEntry>, id: u32, amount: u32, i: int)
    requires
        is_hate_entry(es, id, i),
    ensures
        enmity_after(es[i].cumulative_enmity, amount) >= es[i].cumulative_enmity,
        enmity_after(es[i].cumulative_enmity, amount) >= amount,
        hates(es.update(i, HateEntry { actor_id: id, cumulative_enmity: enmity_after(es[i].cumulative_enmity, amount) }), id),
        hates(es.push(HateEntry { actor_id: id, cumulative_enmity: amount }), id),
{
    let u = es.update(i, HateEntry { actor_id: id, cumulative_enmity: enmity_after(es[i].cumulative_enmity, amount) });
    assert(u[i].actor_id == id);
    let p = es.push(HateEntry { actor_id: id, cumulative_enmity: amount });
    assert(p[es.len() as int].actor_id == id);
}

/// Whom an actor targets and fights.
pub struct Engagement {
    pub main_state: u16,
    /// Soft target (the reticle); `INVALID_ACTORID` for none.
    pub current_target: u32,
    /// Target of the running auto-attack, if it is engaged.
    pub engaged_target: Option<u32>,
    /// Actors on the hate list.
    pub hate: HateContainer,
}

impl Engagement {
    /// A player picks `target`. The soft target always follows; an
    /// attack request engages only with the weapon drawn, and is
    /// otherwise dropped without a word.
    pub fn set_target(&mut self, target: u32, attack: bool)
        ensures
            final(self).current_target == target,
            final(self).engaged_target == if attack && old(self).main_state == MAIN_STATE_ACTIVE {
                Some(target)
            } else {
                old(self).engaged_target
            },
            final(self).main_state == old(self).main_state,
            final(self).hate.entries@ == old(self).hate.entries@,
    {
        self.current_target = target;
        if attack && self.main_state == MAIN_STATE_ACTIVE {
            self.engaged_target = Some(target);
        }
    }

    /// A script engages `target`: whatever the stance, the actor fights.
    pub fn script_engage(&mut self, target: u32)
        ensures
            final(self).engaged_target == Some(target),
            final(self).current_target == old(self).current_target,
            final(self).main_state == old(self).main_state,
            final(self).hate.entries@ == old(self).hate.entries@,
    {
        self.engaged_target = Some(target);
    }

    /// Sheathes the weapon. An engaged actor drops out of the fight:
    /// no auto-attack, no soft target, an empty hate list, stance
    /// passive; the result is then `true`, saying the stance change was
    /// taken care of here. An actor not engaged is left as it was, and
    /// the result is `false`.
    pub fn sheathe(&mut self) -> (flushed: bool)
        ensures
            flushed == old(self).engaged_target is Some,
            flushed ==> final(self).engaged_target is None && final(self).current_target == INVALID_ACTORID
                && final(self).hate.entries@.len() == 0 && final(self).main_state == MAIN_STATE_PASSIVE,
            !flushed ==> final(self).engaged_target == old(self).engaged_target
                && final(self).current_target == old(self).current_target
                && final(self).hate.entries@ == old(self).hate.entries@ && final(self).main_state == old(self).main_state,
    {
        if self.engaged_target.is_none() {
            return false;
        }
        self.engaged_target = None;
        self.current_target = INVALID_ACTORID;
        self.hate.clear();
        self.main_state = MAIN_STATE_PASSIVE;
        true
    }
}

/// A landed swing banks one TP per 10 ms of weapon delay (so a 2500 ms
/// weapon banks 250 and a 4200 ms one 420), and the bank stops at 3000.
pub proof fn law_swing_banks_a_tenth_of_the_delay(tp: u16, delay_ms: u32)
    ensures
        MAX_TP == 3000,
        tp + delay_ms / 10 <= 3000 ==> spec_tp_after_swing(tp, delay_ms) == tp + delay_ms / 10,
        tp + delay_ms / 10 > 3000 ==> spec_tp_after_swing(tp, delay_ms) == 3000,
{
}

/// The death pass: a raise effect always brings the actor back; without
/// one, an enemy respawns once 30 seconds have passed since its death
/// and not before, and a player stays down.
pub proof fn law_enemy_respawns_after_thirty_seconds(is_enemy: bool, has_raise: bool, time_of_death: u32, now: u32)
    ensures
        BNPC_DEFAULT_RESPAWN_SECS == 30,
        has_raise ==> spec_death_tick(is_enemy, has_raise, time_of_death, now) == DeathTick::Revive,
        !has_raise && is_enemy && now >= time_of_death + 30 ==> spec_death_tick(
            is_enemy,
            has_raise,
            time_of_death,
            now,
        ) == DeathTick::Respawn,
        !has_raise && is_enemy && now < time_of_death + 30 ==> spec_death_tick(
            is_enemy,
            has_raise,
            time_of_death,
            now,
        ) == DeathTick::StayDown,
        !has_raise && !is_enemy ==> spec_death_tick(is_enemy, has_raise, time_of_death, now)
            == DeathTick::StayDown,
{
}

/// A command press goes through exactly when the weapon is drawn, the
/// recast is over, the target is in range and the TP covers the cost;
/// with the weapon sheathed it is refused with text 32503 whatever else
/// holds, and a press that passes the first three tests but lacks TP
/// is refused for TP.
pub proof fn law_command_press_order(main_state: u16, recast_time: u32, now: u32, in_range: bool, tp: u16, tp_cost: u16)
    ensures
        MAIN_STATE_ACTIVE == 2 && TEXT_NOT_IN_ACTIVE_MODE == 32503 && TEXT_RECAST_PENDING == 32535
            && TEXT_OUT_OF_RANGE == 32539,
        spec_command_press(main_state, recast_time, now, in_range, tp, tp_cost) == CommandPress::Execute
            <==> (main_state == 2 && recast_time <= now && in_range && tp >= tp_cost),
        main_state != 2 ==> spec_command_press(main_state, recast_time, now, in_range, tp, tp_cost)
            == (CommandPress::Refused { text_id: 32503 }),
        main_state == 2 && recast_time > now ==> spec_command_press(main_state, recast_time, now, in_range, tp, tp_cost)
            == (CommandPress::Refused { text_id: 32535 }),
        main_state == 2 && recast_time <= now && !in_range ==> spec_command_press(main_state, recast_time, now, in_range, tp, tp_cost)
            == (CommandPress::Refused { text_id: 32539 }),
        main_state == 2 && recast_time <= now && in_range && tp < tp_cost ==> spec_command_press(
            main_state,
            recast_time,
            now,
            in_range,
            tp,
            tp_cost,
        ) == CommandPress::NotEnoughTp,
{
}

} // verus!
