use map_server::content::{ContentRoster, RosterMember};

const PLAYER: u32 = 0x0040_0001;
const YDA: u32 = 0x4534_0006;
const PAPALYMO: u32 = 0x4534_0007;
const WOLVES: [u32; 3] = [0x4534_0003, 0x4534_0004, 0x4534_0005];

fn kill_gate_roster() -> ContentRoster {
    let mut members = vec![
        RosterMember { actor_id: PLAYER, hostile: false, alive: true },
        RosterMember { actor_id: YDA, hostile: false, alive: true },
        RosterMember { actor_id: PAPALYMO, hostile: false, alive: true },
    ];
    for w in WOLVES {
        members.push(RosterMember { actor_id: w, hostile: true, alive: true });
    }
    ContentRoster { members }
}

#[test]
fn s4_1_kill_gate_fires_once_when_last_wolf_dies() {
    let mut roster = kill_gate_roster();
    assert_eq!(roster.live_hostile_count(), 3);
    assert!(!roster.on_death(WOLVES[0]), "1 dead: still parked");
    assert!(!roster.on_death(WOLVES[1]), "2 dead: still parked");
    assert!(roster.on_death(WOLVES[2]), "3 dead: resumed");
    assert_eq!(roster.live_hostile_count(), 0);
}

#[test]
fn s4_1_kill_gate_fires_on_ally_killing_blow() {
    // Who landed the blow does not matter.
    let mut roster = kill_gate_roster();
    roster.on_death(WOLVES[0]);
    roster.on_death(WOLVES[1]);
    assert!(roster.on_death(WOLVES[2]));
}

#[test]
fn s4_1_kill_gate_single_fire_on_same_tick_double_death() {
    let mut roster = kill_gate_roster();
    roster.on_death(WOLVES[0]);
    assert!(!roster.on_death(WOLVES[1]), "w3 not yet dead, no signal yet");
    assert!(roster.on_death(WOLVES[2]));
    assert!(!roster.on_death(WOLVES[2]), "a second death report never fires again");
    assert!(!roster.on_death(YDA), "an ally dying afterwards fires nothing");
}

#[test]
fn battle_signal_ignores_allies_and_strangers() {
    let mut roster = kill_gate_roster();
    assert!(!roster.on_death(PAPALYMO));
    assert!(!roster.on_death(0xDEAD));
    assert_eq!(roster.live_hostile_count(), 3);
    assert_eq!(roster.members.len(), 6);
}
