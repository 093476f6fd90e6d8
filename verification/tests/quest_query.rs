use benilla::quest_query::{
    self_generation, unit_ask_key, QueryFrame, QueryState, SeenKind, SeenObject, SelfFields,
    NPC_FLAG_QUESTGIVER,
};

/// A little world around [`QueryState::step`]: our own fields (folded only on a frame where
/// they changed), the packet epoch, and the objects in view, all in the world.
struct World {
    state: QueryState,
    me: SelfFields,
    me_changed: bool,
    epoch: u32,
    objects: Vec<SeenObject>,
}

impl World {
    fn new(me: SelfFields) -> Self {
        World { state: QueryState::new(), me, me_changed: true, epoch: 0, objects: Vec::new() }
    }

    fn frame(&mut self) -> QueryFrame {
        let in_world: Vec<u64> = self.objects.iter().map(|o| o.guid).collect();
        let fields = if self.me_changed { Some(&self.me) } else { None };
        let out = self.state.step(fields, self.epoch, &in_world, &self.objects);
        self.me_changed = false;
        out
    }

    fn asked(&mut self, guid: u64) -> usize {
        self.frame().queries.iter().filter(|g| **g == guid).count()
    }
}

fn me(level: u32) -> SelfFields {
    SelfFields {
        level: Some(level),
        health: None,
        player_flags: 0,
        money: None,
        quest_log: vec![],
        skills: vec![],
        inventory: vec![],
    }
}

fn unit(guid: u64, npc_flags: u32, faction: Option<u32>) -> SeenObject {
    SeenObject {
        guid,
        kind: SeenKind::Unit,
        npc_flags,
        faction_template: faction,
        gameobject_flags: 0,
        reaction: None,
    }
}

fn gameobject(guid: u64, flags: u32) -> SeenObject {
    SeenObject {
        guid,
        kind: SeenKind::GameObject,
        npc_flags: 0,
        faction_template: None,
        gameobject_flags: flags,
        reaction: None,
    }
}

#[test]
fn the_status_is_re_asked_on_a_ding_on_re_entry_and_dropped_with_the_flag() {
    const NPC: u64 = 0xdead_beef;
    let mut w = World::new(me(5));
    w.objects.push(unit(NPC, 0x2, None));
    assert_eq!(w.asked(NPC), 1, "asked once when it comes into view");
    assert_eq!(w.asked(NPC), 0, "not again while nothing has changed");

    w.me = me(6);
    w.me_changed = true;
    assert_eq!(w.asked(NPC), 1, "our level changed — re-ask everyone");
    assert_eq!(w.asked(NPC), 0, "…once");

    w.objects.clear();
    assert_eq!(w.asked(NPC), 0, "gone: nothing to ask");

    w.objects.push(unit(NPC, 0x2, None));
    assert_eq!(w.asked(NPC), 1, "back in view — asked afresh");

    w.objects[0] = unit(NPC, 0x1, None);
    let f = w.frame();
    assert!(f.queries.is_empty(), "no longer a questgiver — nothing to ask");
    assert_eq!(f.cleared, vec![NPC], "and its stale answer is dropped");
}

#[test]
fn an_escort_giver_loses_its_marker_when_the_flag_drops_with_the_quest_log_write() {
    const ESCORT: u64 = 0x5115;
    const PLAIN: u64 = 0x5116;
    let mut w = World::new(me(1));
    w.objects.push(unit(ESCORT, 0x2, None));
    w.objects.push(unit(PLAIN, 0x2, None));
    assert_eq!(w.frame().queries, vec![ESCORT, PLAIN]);

    // The accept, as one update: the quest log moves (the sweep) and the escort's bit goes off.
    w.me.quest_log = vec![Some((938, 0))];
    w.me_changed = true;
    w.objects[0] = unit(ESCORT, 0x0, None);
    let f = w.frame();
    assert!(f.swept);
    assert_eq!(f.cleared, vec![ESCORT], "the escortee's stale status must go, sweep or no sweep");
    assert_eq!(f.queries, vec![PLAIN], "the control is re-asked by the sweep and keeps its answer until then");

    // It self-heals: the bit returns and the NPC is asked again.
    w.objects[0] = unit(ESCORT, 0x2, None);
    assert_eq!(w.asked(ESCORT), 1);
}

#[test]
fn a_gameobject_is_asked_on_a_sweep_and_never_at_first_sight() {
    const POSTER: u64 = 0xf110_0000_0044_68db;
    const POSTER_FLAGS: u32 = 0x24;
    const DOOR: u64 = 0xf110_0000_0045_0001;
    const DOOR_FLAGS: u32 = 0x20;
    const NPC: u64 = 0x2222;
    let mut w = World::new(me(5));
    assert!(w.frame().queries.is_empty(), "nothing in view yet");

    w.objects.push(gameobject(POSTER, POSTER_FLAGS));
    w.objects.push(gameobject(DOOR, DOOR_FLAGS));
    w.objects.push(unit(NPC, NPC_FLAG_QUESTGIVER, None));
    assert_eq!(w.frame().queries, vec![NPC], "first sight: the creature, not the poster");
    assert!(w.frame().queries.is_empty(), "and the frames after it stay silent");

    w.epoch += 1;
    let swept = w.frame().queries;
    assert!(swept.contains(&POSTER), "the sweep asks about the poster — {swept:x?}");
    assert!(swept.contains(&NPC), "and re-asks the creature — {swept:x?}");
    assert!(!swept.contains(&DOOR), "but never the GameObject without the flag bit — {swept:x?}");
    assert_eq!(swept.iter().filter(|g| **g == POSTER).count(), 1, "exactly once per sweep");

    assert!(w.frame().queries.is_empty(), "between sweeps, nothing");

    w.epoch += 1;
    assert!(w.frame().queries.contains(&POSTER), "and again on the next sweep");
}

#[test]
fn every_recorded_trigger_re_asks_exactly_once() {
    const NPC: u64 = 0x1234;
    let base = SelfFields {
        level: Some(5),
        health: Some(100),
        player_flags: 0,
        money: Some(500),
        quest_log: vec![],
        skills: vec![Some((186, 75))],
        inventory: vec![Some(0xaaaa)],
    };
    let mut w = World::new(base.clone());
    w.objects.push(unit(NPC, 0x2, Some(35)));
    assert_eq!(w.asked(NPC), 1, "the first sight");
    assert_eq!(w.asked(NPC), 0, "then quiet");

    let legs: Vec<(&str, SelfFields)> = vec![
        ("death", SelfFields { health: Some(0), ..base.clone() }),
        ("PLAYER_FLAGS", SelfFields { player_flags: 0x10, ..base.clone() }),
        ("money", SelfFields { money: Some(900), ..base.clone() }),
        ("a skill rank", SelfFields { skills: vec![Some((186, 80))], ..base.clone() }),
        ("an equipped item", SelfFields { inventory: vec![Some(0xbbbb)], ..base.clone() }),
    ];
    for (label, fields) in legs {
        w.me = fields;
        w.me_changed = true;
        assert_eq!(w.asked(NPC), 1, "{label} changed — re-ask");
        assert_eq!(w.asked(NPC), 0, "{label}: exactly once");
    }

    w.epoch += 1;
    assert_eq!(w.asked(NPC), 1, "a swept packet — re-ask");
    assert_eq!(w.asked(NPC), 0, "exactly once");

    w.objects[0] = unit(NPC, 0x2 | 0x8, Some(35));
    assert_eq!(w.asked(NPC), 1, "its flightmaster bit — re-ask that one");
    assert_eq!(w.asked(NPC), 0, "exactly once");

    w.objects[0] = unit(NPC, 0x2 | 0x8, Some(12));
    assert_eq!(w.asked(NPC), 1, "its faction template — re-ask that one");
    assert_eq!(w.asked(NPC), 0, "exactly once");
}

#[test]
fn ordinary_damage_does_not_sweep_but_the_dead_bit_does() {
    let alive = SelfFields { health: Some(70), ..me(10) };
    let hurt = SelfFields { health: Some(2), ..me(10) };
    let dead = SelfFields { health: Some(0), ..me(10) };
    assert_eq!(self_generation(&alive), self_generation(&hurt));
    assert_ne!(self_generation(&alive), self_generation(&dead));
    assert_eq!(self_generation(&SelfFields { health: None, ..me(10) }), self_generation(&alive));
}

#[test]
fn the_generation_is_fnv_over_the_watched_fields() {
    // FNV-1a over [0, 0, 0, 0]: four folds of a zero from the offset basis.
    let mut h: u64 = 0xcbf2_9ce4_8422_2325;
    for _ in 0..4 {
        h = h.wrapping_mul(0x0000_0100_0000_01B3);
    }
    let empty = SelfFields {
        level: None,
        health: Some(5),
        player_flags: 0,
        money: None,
        quest_log: vec![Some((0, 9)), None],
        skills: vec![None],
        inventory: vec![None],
    };
    assert_eq!(self_generation(&empty), h, "empty slots and zero ids fold nothing");
}

#[test]
fn the_ask_key_packs_flags_low_and_faction_high() {
    assert_eq!(unit_ask_key(0x2, Some(35)), 0x23_0000_0002);
    assert_eq!(unit_ask_key(0xA, None), 0xA);
}

#[test]
fn a_hostile_gameobject_is_not_asked_on_a_sweep() {
    let mut w = World::new(me(1));
    let mut go = gameobject(9, 0x4);
    go.reaction = Some(1);
    let mut neutral = gameobject(10, 0x4);
    neutral.reaction = Some(3);
    w.objects.push(go);
    w.objects.push(neutral);
    assert_eq!(w.frame().queries, vec![10], "an unfriendly reaction of 1 is below the bar");
}
