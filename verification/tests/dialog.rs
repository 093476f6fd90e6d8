use benilla::battlefield::BattlefieldStatus;
use benilla::dialog::{
    cancel_gate_could_apply, meeting_stone_cancel, AreaSpiritHealer, BattlefieldQueue, BootError, BootEvent, InstanceBoot,
    MeetingStone, PetConfirmOutcome, PetUnlearnState, StoneCancelOutcome,
};

#[test]
fn the_boot_clock_arms_on_a_delay_and_clears_on_zero_with_the_reason() {
    let mut boot = InstanceBoot::new();
    let now = 5_000_000u64;
    boot.apply(60_500, 0, now);
    assert_eq!(boot.events(), &[BootEvent::Start]);
    assert_eq!(boot.events()[0].name(), "INSTANCE_BOOT_START");
    assert_eq!(boot.secs(now), 60, "whole seconds, truncated");
    boot.apply(0, 1, now);
    assert_eq!(boot.events(), &[BootEvent::Start, BootEvent::Stop]);
    assert_eq!(boot.events()[1].name(), "INSTANCE_BOOT_STOP");
    assert_eq!(boot.errors(), &[BootError::RaidGroupOnly]);
    assert_eq!(boot.errors()[0].key(), "ERR_RAID_GROUP_ONLY");
    assert_eq!(boot.secs(now), 0);
    boot.apply(0, 7, now);
    assert_eq!(boot.errors().len(), 1, "a reason outside 1/2 names nothing");
}

#[test]
fn the_spirit_healer_clock_only_arms_for_the_cached_healer() {
    let mut spirit = AreaSpiritHealer::new();
    let now = 1_000u64;
    spirit.on_time(0x77, 30_000, now);
    assert!(!spirit.in_range(), "no healer cached: the packet is ignored");
    spirit.set_healer(Some(0x77));
    spirit.on_time(0x78, 30_000, now);
    assert!(!spirit.in_range(), "another guid: ignored");
    spirit.on_time(0x77, 0, now);
    assert!(!spirit.in_range(), "a zero time: ignored");
    spirit.on_time(0x77, 30_000, now);
    assert!(spirit.in_range());
    assert_eq!(spirit.secs(now), 30);
}

#[test]
fn the_queue_keeps_three_slots_and_answers_a_port_by_map() {
    let mut q = BattlefieldQueue::new();
    let status = |slot, map_id| BattlefieldStatus {
        slot,
        map_id,
        bracket: 0,
        unknown: 0,
        status: 2,
        time_ms: Some(0),
        in_progress: None,
        queued: None,
    };
    q.apply(status(1, 489));
    q.apply(status(5, 30));
    assert_eq!(
        q.map_id(2),
        Some(489),
        "1-based from Lua, 0-based on the wire"
    );
    assert_eq!(q.map_id(1), None);
    assert_eq!(q.map_id(4), None);
    q.apply(status(1, 0));
    assert_eq!(q.map_id(2), None, "a zero map clears the slot");
}

#[test]
fn the_pet_question_latches_and_closes_like_the_talent_wipe() {
    let mut pet = PetUnlearnState::new();
    pet.ask(0x2b, 10_000);
    assert_eq!(pet.pending(), Some(0x2b));
    assert!(pet.asking());
    pet.close();
    assert_eq!(pet.pending(), None);
    assert_eq!(pet.cost(), 0);
}

#[test]
fn the_pet_confirm_sends_only_what_the_purse_covers() {
    let mut pet = PetUnlearnState::new();
    assert_eq!(pet.confirm(1, 99_999), PetConfirmOutcome::Nothing, "nothing latched");
    pet.ask(0x2b, 10_000);
    assert_eq!(pet.take_dialog(), Some(10_000));
    assert_eq!(pet.take_dialog(), None, "the dialog is owed once");
    assert_eq!(pet.confirm(0, 99_999), PetConfirmOutcome::Nothing);
    assert_eq!(pet.confirm(1, 9_999), PetConfirmOutcome::NotEnoughMoney);
    assert_eq!(pet.confirm(2, 10_000), PetConfirmOutcome::Send { trainer: 0x2b, times: 2 });
}

#[test]
fn the_boot_clock_counts_down_and_drains() {
    let mut boot = InstanceBoot::new();
    boot.apply(2_999, 0, 0);
    assert_eq!(boot.secs(0), 2);
    assert_eq!(boot.secs(1_000), 1);
    assert_eq!(boot.secs(2_999), 0);
    assert_eq!(boot.secs(10_000), 0, "past the deadline");
    boot.apply(0, 2, 0);
    let (events, errors) = boot.take_owed();
    assert_eq!(events, vec![BootEvent::Start, BootEvent::Stop]);
    assert_eq!(errors, vec![BootError::RaidGroupFull]);
    assert!(boot.events().is_empty() && boot.errors().is_empty());
}

#[test]
fn the_queue_owes_one_update_and_answers_port_calls_in_order() {
    let mut q = BattlefieldQueue::new();
    assert!(!q.take_changed());
    q.apply(BattlefieldStatus {
        slot: 0,
        map_id: 30,
        bracket: 0,
        unknown: 0,
        status: 1,
        time_ms: None,
        in_progress: None,
        queued: Some((1, 2)),
    });
    assert!(q.take_changed());
    assert!(!q.take_changed());
    assert_eq!(q.port_answers(&[(1, true), (2, true), (0, false), (1, false)]), vec![(30, true), (30, false)]);
}

#[test]
fn the_meeting_stone_leave_needs_the_lead_in_a_party() {
    let mut stone = MeetingStone::new();
    stone.apply(10, 3);
    assert_eq!((stone.area, stone.status), (10, Some(3)));
    assert!(stone.take_changed());
    assert!(!stone.take_changed());
    assert_eq!(meeting_stone_cancel(0, None, Some(1)), StoneCancelOutcome::Nothing);
    assert_eq!(meeting_stone_cancel(1, None, Some(1)), StoneCancelOutcome::Send { times: 1 });
    assert_eq!(meeting_stone_cancel(2, Some((true, 1)), Some(1)), StoneCancelOutcome::Send { times: 2 });
    assert_eq!(meeting_stone_cancel(1, Some((true, 7)), Some(1)), StoneCancelOutcome::NotLeader);
    assert_eq!(meeting_stone_cancel(1, Some((false, 7)), Some(1)), StoneCancelOutcome::Send { times: 1 });
    assert_eq!(meeting_stone_cancel(1, Some((true, 7)), None), StoneCancelOutcome::NotLeader);
}

#[test]
fn the_spirit_healer_accept_needs_a_cached_healer() {
    let mut spirit = AreaSpiritHealer::new();
    assert_eq!(spirit.accept(1), None);
    spirit.set_healer(Some(9));
    assert_eq!(spirit.accept(0), None);
    assert_eq!(spirit.accept(2), Some((9, 2)));
    spirit.on_time(9, 1, 0);
    assert!(spirit.take_in_range());
    assert!(!spirit.take_in_range());
}

#[test]
fn the_cancel_gate_needs_bit_13_set_and_bit_2_clear() {
    assert!(cancel_gate_could_apply(0x2000));
    assert!(!cancel_gate_could_apply(0x2004));
    assert!(!cancel_gate_could_apply(0x4));
    assert!(!cancel_gate_could_apply(0));
    assert!(cancel_gate_could_apply(0xFFFF_DFFB & 0xFFFF_FFFB | 0x2000));
}

#[test]
fn the_spirit_healer_cache_is_set_and_forgotten_without_touching_the_clock() {
    let mut spirit = AreaSpiritHealer::new();
    assert_eq!(spirit.healer(), None);
    spirit.set_healer(Some(5));
    assert_eq!(spirit.healer(), Some(5));
    spirit.on_time(5, 2_000, 100);
    spirit.set_healer(None);
    assert_eq!(spirit.healer(), None);
    assert!(spirit.in_range(), "forgetting the healer keeps the owed event");
    assert_eq!(spirit.secs(100), 2);
    assert_eq!(spirit.accept(1), None);
}
