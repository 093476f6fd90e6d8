//! The dialog verbs' state — what the packets behind the stock dialogs latch, and what the
//! dialogs' buttons send. Time is the app clock in milliseconds.
//!
//! * **Pet trainer** — the unlearn question latches the trainer and the cost and owes the
//!   dialog; confirming sends the unlearn for the latched trainer unless the cost outruns the
//!   purse, which shows `ERR_NOT_ENOUGH_MONEY` and sends nothing.
//! * **Instance boot** — every boot packet owes an event: a positive delay arms the deadline
//!   and owes `INSTANCE_BOOT_START`, zero clears it and owes `INSTANCE_BOOT_STOP`, and only the
//!   zero leg names reason 1 or 2 on screen. The remaining time is whole seconds off the
//!   deadline; nothing clears it but a zero packet.
//! * **Area spirit healer** — the wave time arms the clock and owes `_IN_RANGE` only for the
//!   cached healer with a positive time. Nothing writes the cache yet: the proximity scan that
//!   would is not modelled, so a fresh client never arms it and Accept stays silent.
//! * **Battlefield queue** — a status fills one of three slots (an out-of-range slot is
//!   ignored, a zero map clears); a port answer sends the 1-based slot's map id.
//! * **Meeting stone** — the queue packet stores the area; cancelling sends the leave unless in
//!   a party led by someone else (`ERR_MEETING_STONE_NOT_LEADER`).

use vstd::prelude::*;

use crate::battlefield::BattlefieldStatus;

verus! {

/// The pet trainer's pending question: the latched trainer, the cost, and whether the dialog is
/// still owed.
pub struct PetUnlearnState {
    npc: Option<u64>,
    cost: u32,
    ask: bool,
}

/// What confirming the pet unlearn does.
#[derive(Clone, Copy, Debug, PartialEq, Eq)]
pub enum PetConfirmOutcome {
    /// No confirm, or no question latched: nothing.
    Nothing,
    /// The cost outruns the purse: `ERR_NOT_ENOUGH_MONEY`, nothing sent.
    NotEnoughMoney,
    /// Send the unlearn for `trainer`, once per confirm.
    Send { trainer: u64, times: u32 },
}

impl PetUnlearnState {
    pub closed spec fn latched(&self) -> Option<u64> {
        self.npc
    }

    pub closed spec fn latched_cost(&self) -> u32 {
        self.cost
    }

    pub closed spec fn owes_dialog(&self) -> bool {
        self.ask
    }

    /// Nothing latched.
    pub fn new() -> (s: Self)
        ensures
            s.latched() is None,
            s.latched_cost() == 0,
            !s.owes_dialog(),
    {
        PetUnlearnState { npc: None, cost: 0, ask: false }
    }

    /// The inbound question: latch the trainer and the cost, and owe the dialog.
    pub fn ask(&mut self, npc: u64, cost: u32)
        ensures
            final(self).latched() == Some(npc),
            final(self).latched_cost() == cost,
            final(self).owes_dialog(),
    {
        self.npc = Some(npc);
        self.cost = cost;
        self.ask = true;
    }

    /// The latched trainer, if a question is pending.
    pub fn pending(&self) -> (npc: Option<u64>)
        ensures
            npc == self.latched(),
    {
        self.npc
    }

    /// The latched cost.
    pub fn cost(&self) -> (c: u32)
        ensures
            c == self.latched_cost(),
    {
        self.cost
    }

    /// Whether the dialog is still owed.
    pub fn asking(&self) -> (b: bool)
        ensures
            b == self.owes_dialog(),
    {
        self.ask
    }

    /// The trainer walked out of range (or the question was answered): drop the latch.
    pub fn close(&mut self)
        ensures
            final(self).latched() is None,
            final(self).latched_cost() == 0,
            !final(self).owes_dialog(),
    {
        self.npc = None;
        self.cost = 0;
        self.ask = false;
    }

    /// The dialog the question owes, once: its cost, and the debt is cleared.
    pub fn take_dialog(&mut self) -> (cost: Option<u32>)
        ensures
            cost == (if old(self).owes_dialog() { Some(old(self).latched_cost()) } else { None }),
            !final(self).owes_dialog(),
            final(self).latched() == old(self).latched(),
            final(self).latched_cost() == old(self).latched_cost(),
    {
        if self.ask {
            self.ask = false;
            Some(self.cost)
        } else {
            None
        }
    }

    /// `ConfirmPetUnlearn()`, `confirms` times this frame, with `money` copper in the purse.
    pub fn confirm(&self, confirms: u32, money: u32) -> (o: PetConfirmOutcome)
        ensures
            o == (if confirms == 0 || self.latched() is None {
                PetConfirmOutcome::Nothing
            } else if self.latched_cost() > money {
                PetConfirmOutcome::NotEnoughMoney
            } else {
                PetConfirmOutcome::Send { trainer: self.latched().unwrap(), times: confirms }
            }),
    {
        if confirms == 0 {
            return PetConfirmOutcome::Nothing;
        }
        match self.npc {
            None => PetConfirmOutcome::Nothing,
            Some(npc) => if self.cost > money {
                PetConfirmOutcome::NotEnoughMoney
            } else {
                PetConfirmOutcome::Send { trainer: npc, times: confirms }
            },
        }
    }
}

/// The two events a boot packet owes.
#[derive(Clone, Copy, Debug, PartialEq, Eq)]
pub enum BootEvent {
    /// `INSTANCE_BOOT_START`.
    Start,
    /// `INSTANCE_BOOT_STOP`.
    Stop,
}

/// The two error lines the zero leg can name.
#[derive(Clone, Copy, Debug, PartialEq, Eq)]
pub enum BootError {
    /// `ERR_RAID_GROUP_ONLY`.
    RaidGroupOnly,
    /// `ERR_RAID_GROUP_FULL`.
    RaidGroupFull,
}

impl BootEvent {
    /// The event's name.
    pub fn name(self) -> (s: &'static str)
        ensures
            s@ == (match self {
                BootEvent::Start => "INSTANCE_BOOT_START"@,
                BootEvent::Stop => "INSTANCE_BOOT_STOP"@,
            }),
    {
        match self {
            BootEvent::Start => "INSTANCE_BOOT_START",
            BootEvent::Stop => "INSTANCE_BOOT_STOP",
        }
    }
}

impl BootError {
    /// The error line's key.
    pub fn key(self) -> (s: &'static str)
        ensures
            s@ == (match self {
                BootError::RaidGroupOnly => "ERR_RAID_GROUP_ONLY"@,
                BootError::RaidGroupFull => "ERR_RAID_GROUP_FULL"@,
            }),
    {
        match self {
            BootError::RaidGroupOnly => "ERR_RAID_GROUP_ONLY",
            BootError::RaidGroupFull => "ERR_RAID_GROUP_FULL",
        }
    }
}

/// Whole seconds from `now` until `deadline`, 0 when idle or past, capped at `u32::MAX`.
pub open spec fn secs_left(deadline: Option<u64>, now: u64) -> u32 {
    match deadline {
        None => 0,
        Some(d) => if d <= now {
            0
        } else if (d - now) / 1000 > u32::MAX {
            u32::MAX
        } else {
            ((d - now) / 1000) as u32
        },
    }
}

fn secs_until(deadline: Option<u64>, now: u64) -> (s: u32)
    ensures
        s == secs_left(deadline, now),
{
    match deadline {
        None => 0,
        Some(d) => if d <= now {
            0
        } else {
            let s = (d - now) / 1000;
            if s > u32::MAX as u64 {
                u32::MAX
            } else {
                s as u32
            }
        },
    }
}

/// The instance-boot clock, and what the packets so far owe the UI.
pub struct InstanceBoot {
    deadline: Option<u64>,
    events: Vec<BootEvent>,
    errors: Vec<BootError>,
}

impl InstanceBoot {
    pub closed spec fn deadline(&self) -> Option<u64> {
        self.deadline
    }

    pub closed spec fn owed_events(&self) -> Seq<BootEvent> {
        self.events@
    }

    pub closed spec fn owed_errors(&self) -> Seq<BootError> {
        self.errors@
    }

    /// Idle, nothing owed.
    pub fn new() -> (b: Self)
        ensures
            b.deadline() is None,
            b.owed_events().len() == 0,
            b.owed_errors().len() == 0,
    {
        InstanceBoot { deadline: None, events: Vec::new(), errors: Vec::new() }
    }

    /// The boot packet: `delay_ms > 0` arms the deadline and owes the start event; zero clears
    /// it, owes the stop event, and names reason 1 or 2 (any other reason names nothing).
    pub fn apply(&mut self, delay_ms: u32, reason: u32, now: u64)
        requires
            now + delay_ms <= u64::MAX,
        ensures
            delay_ms > 0 ==> {
                &&& final(self).deadline() == Some((now + delay_ms) as u64)
                &&& final(self).owed_events() == old(self).owed_events().push(BootEvent::Start)
                &&& final(self).owed_errors() == old(self).owed_errors()
            },
            delay_ms == 0 ==> {
                &&& final(self).deadline() is None
                &&& final(self).owed_events() == old(self).owed_events().push(BootEvent::Stop)
                &&& final(self).owed_errors() == if reason == 1 {
                    old(self).owed_errors().push(BootError::RaidGroupOnly)
                } else if reason == 2 {
                    old(self).owed_errors().push(BootError::RaidGroupFull)
                } else {
                    old(self).owed_errors()
                }
            },
    {
        if delay_ms > 0 {
            self.deadline = Some(now + delay_ms as u64);
            self.events.push(BootEvent::Start);
        } else {
            self.deadline = None;
            self.events.push(BootEvent::Stop);
            if reason == 1 {
                self.errors.push(BootError::RaidGroupOnly);
            } else if reason == 2 {
                self.errors.push(BootError::RaidGroupFull);
            }
        }
    }

    /// `GetInstanceBootTimeRemaining()`: whole seconds left, 0 when idle or past.
    pub fn secs(&self, now: u64) -> (s: u32)
        ensures
            s == secs_left(self.deadline(), now),
    {
        secs_until(self.deadline, now)
    }

    /// The events owed, in arrival order.
    pub fn events(&self) -> (e: &[BootEvent])
        ensures
            e@ == self.owed_events(),
    {
        self.events.as_slice()
    }

    /// The error lines owed, in arrival order.
    pub fn errors(&self) -> (e: &[BootError])
        ensures
            e@ == self.owed_errors(),
    {
        self.errors.as_slice()
    }

    /// Drain what is owed: the events and the error lines, each in arrival order.
    pub fn take_owed(&mut self) -> (owed: (Vec<BootEvent>, Vec<BootError>))
        ensures
            owed.0@ == old(self).owed_events(),
            owed.1@ == old(self).owed_errors(),
            final(self).owed_events().len() == 0,
            final(self).owed_errors().len() == 0,
            final(self).deadline() == old(self).deadline(),
    {
        let mut events: Vec<BootEvent> = Vec::new();
        let mut errors: Vec<BootError> = Vec::new();
        std::mem::swap(&mut events, &mut self.events);
        std::mem::swap(&mut errors, &mut self.errors);
        (events, errors)
    }
}

/// The current-area spirit healer and its wave clock.
pub struct AreaSpiritHealer {
    /// The cached healer. No scan in the client writes it; a caller that knows the healer sets
    /// it with `set_healer`.
    healer: Option<u64>,
    deadline: Option<u64>,
    in_range: bool,
}

impl AreaSpiritHealer {
    pub closed spec fn cached(&self) -> Option<u64> {
        self.healer
    }

    pub closed spec fn deadline(&self) -> Option<u64> {
        self.deadline
    }

    pub closed spec fn owes_in_range(&self) -> bool {
        self.in_range
    }

    /// No healer cached, the clock idle.
    pub fn new() -> (s: Self)
        ensures
            s.cached() is None,
            s.deadline() is None,
            !s.owes_in_range(),
    {
        AreaSpiritHealer { healer: None, deadline: None, in_range: false }
    }

    /// Caches the current-area healer (or forgets it); the clock and the owed event stay.
    pub fn set_healer(&mut self, healer: Option<u64>)
        ensures
            final(self).cached() == healer,
            final(self).deadline() == old(self).deadline(),
            final(self).owes_in_range() == old(self).owes_in_range(),
    {
        self.healer = healer;
    }

    /// The cached healer.
    pub fn healer(&self) -> (h: Option<u64>)
        ensures
            h == self.cached(),
    {
        self.healer
    }

    /// The wave time: for the cached healer with a positive time, arm the clock and owe the
    /// in-range event; otherwise ignored.
    pub fn on_time(&mut self, healer: u64, ms: u32, now: u64)
        requires
            now + ms <= u64::MAX,
        ensures
            final(self).cached() == old(self).cached(),
            (old(self).cached() == Some(healer) && ms > 0) ==> final(self).deadline() == Some((now + ms) as u64)
                && final(self).owes_in_range(),
            !(old(self).cached() == Some(healer) && ms > 0) ==> final(self).deadline() == old(self).deadline()
                && final(self).owes_in_range() == old(self).owes_in_range(),
    {
        let hit = match self.healer {
            Some(h) => h == healer,
            None => false,
        };
        if hit && ms > 0 {
            self.deadline = Some(now + ms as u64);
            self.in_range = true;
        }
    }

    /// Whether the in-range event is owed.
    pub fn in_range(&self) -> (b: bool)
        ensures
            b == self.owes_in_range(),
    {
        self.in_range
    }

    /// The in-range event, once.
    pub fn take_in_range(&mut self) -> (b: bool)
        ensures
            b == old(self).owes_in_range(),
            !final(self).owes_in_range(),
            final(self).cached() == old(self).cached(),
            final(self).deadline() == old(self).deadline(),
    {
        let b = self.in_range;
        self.in_range = false;
        b
    }

    /// The wave's whole seconds left, 0 when idle or past.
    pub fn secs(&self, now: u64) -> (s: u32)
        ensures
            s == secs_left(self.deadline(), now),
    {
        secs_until(self.deadline, now)
    }

    /// `AcceptAreaSpiritHeal()`, `accepts` times: the cached healer's guid, once per accept —
    /// nothing without one.
    pub fn accept(&self, accepts: u32) -> (send: Option<(u64, u32)>)
        ensures
            send == (if accepts > 0 && self.cached() is Some {
                Some((self.cached().unwrap(), accepts))
            } else {
                None
            }),
    {
        match self.healer {
            Some(h) => if accepts > 0 {
                Some((h, accepts))
            } else {
                None
            },
            None => None,
        }
    }
}

/// The three battleground queue slots.
pub struct BattlefieldQueue {
    slots: [Option<BattlefieldStatus>; 3],
    changed: bool,
}

/// The map id a 1-based `index` answers with, if that slot holds a queue.
pub open spec fn queue_map_id(slots: Seq<Option<BattlefieldStatus>>, index: u8) -> Option<u32> {
    if 1 <= index <= 3 && slots[index - 1] is Some {
        Some(slots[index - 1].unwrap().map_id)
    } else {
        None
    }
}

impl BattlefieldQueue {
    pub closed spec fn slot_view(&self) -> Seq<Option<BattlefieldStatus>> {
        self.slots@
    }

    pub closed spec fn owes_update(&self) -> bool {
        self.changed
    }

    /// Three empty slots.
    pub fn new() -> (q: Self)
        ensures
            q.slot_view() == seq![None::<BattlefieldStatus>, None, None],
            !q.owes_update(),
    {
        let q = BattlefieldQueue { slots: [None, None, None], changed: false };
        assert(q.slot_view() =~= seq![None::<BattlefieldStatus>, None, None]);
        q
    }

    /// A status: an out-of-range slot is ignored; otherwise the slot takes the status (a zero
    /// map clears it) and an update is owed.
    pub fn apply(&mut self, status: BattlefieldStatus)
        ensures
            status.slot >= 3 ==> final(self).slot_view() == old(self).slot_view() && final(self).owes_update()
                == old(self).owes_update(),
            status.slot < 3 ==> final(self).owes_update() && final(self).slot_view() == old(
                self,
            ).slot_view().update(
                status.slot as int,
                if status.map_id != 0 {
                    Some(status)
                } else {
                    None
                },
            ),
    {
        if status.slot >= 3 {
            return;
        }
        let i = status.slot as usize;
        if status.map_id != 0 {
            self.slots[i] = Some(status);
        } else {
            self.slots[i] = None;
        }
        self.changed = true;
    }

    /// The map id `AcceptBattlefieldPort` sends for a 1-based slot, if the slot holds a queue.
    pub fn map_id(&self, index: u8) -> (m: Option<u32>)
        ensures
            m == queue_map_id(self.slot_view(), index),
    {
        if index >= 1 && index <= 3 {
            match &self.slots[(index - 1) as usize] {
                Some(s) => Some(s.map_id),
                None => None,
            }
        } else {
            None
        }
    }

    /// The update event, once.
    pub fn take_changed(&mut self) -> (b: bool)
        ensures
            b == old(self).owes_update(),
            !final(self).owes_update(),
            final(self).slot_view() == old(self).slot_view(),
    {
        let b = self.changed;
        self.changed = false;
        b
    }

    /// The port answers to send for this frame's `AcceptBattlefieldPort(index, accept)` calls,
    /// in call order: each slot's map id with its answer, a call on an empty slot sending
    /// nothing.
    pub fn port_answers(&self, requests: &[(u8, bool)]) -> (out: Vec<(u32, bool)>)
        ensures
            out@ == port_answers(self.slot_view(), requests@),
    {
        let mut out: Vec<(u32, bool)> = Vec::new();
        let mut i: usize = 0;
        while i < requests.len()
            invariant
                i <= requests@.len(),
                out@ == port_answers(self.slot_view(), requests@.subrange(0, i as int)),
            decreases requests@.len() - i,
        {
            let (index, accept) = requests[i];
            assert(requests@.subrange(0, i + 1).drop_last() =~= requests@.subrange(0, i as int));
            if let Some(m) = self.map_id(index) {
                out.push((m, accept));
            }
            i = i + 1;
        }
        assert(requests@.subrange(0, requests@.len() as int) =~= requests@);
        out
    }
}

/// The answers a sequence of port calls sends.
pub open spec fn port_answers(slots: Seq<Option<BattlefieldStatus>>, reqs: Seq<(u8, bool)>) -> Seq<(u32, bool)>
    decreases reqs.len(),
{
    if reqs.len() == 0 {
        Seq::empty()
    } else {
        let rest = port_answers(slots, reqs.drop_last());
        match queue_map_id(slots, reqs.last().0) {
            Some(m) => rest.push((m, reqs.last().1)),
            None => rest,
        }
    }
}

/// The meeting-stone queue.
pub struct MeetingStone {
    pub area: u32,
    pub status: Option<u8>,
    changed: bool,
}

/// What cancelling the meeting-stone request does.
#[derive(Clone, Copy, Debug, PartialEq, Eq)]
pub enum StoneCancelOutcome {
    /// No cancel this frame.
    Nothing,
    /// In a party led by someone else: `ERR_MEETING_STONE_NOT_LEADER`, nothing sent.
    NotLeader,
    /// Send the leave, once per cancel, whatever is or is not queued.
    Send { times: u32 },
}

impl MeetingStone {
    pub closed spec fn queued_area(&self) -> u32 {
        self.area
    }

    pub closed spec fn queued_status(&self) -> Option<u8> {
        self.status
    }

    pub closed spec fn owes_update(&self) -> bool {
        self.changed
    }

    /// Nothing queued.
    pub fn new() -> (s: Self)
        ensures
            s.queued_area() == 0,
            s.queued_status() is None,
            !s.owes_update(),
    {
        MeetingStone { area: 0, status: None, changed: false }
    }

    /// The queue packet: the area is stored unconditionally, with its status, and an update is
    /// owed.
    pub fn apply(&mut self, area: u32, status: u8)
        ensures
            final(self).queued_area() == area,
            final(self).queued_status() == Some(status),
            final(self).owes_update(),
    {
        self.area = area;
        self.status = Some(status);
        self.changed = true;
    }

    /// The update event, once.
    pub fn take_changed(&mut self) -> (b: bool)
        ensures
            b == old(self).owes_update(),
            !final(self).owes_update(),
            final(self).queued_area() == old(self).queued_area(),
            final(self).queued_status() == old(self).queued_status(),
    {
        let b = self.changed;
        self.changed = false;
        b
    }
}

/// `CancelMeetingStoneRequest()`, `cancels` times this frame. `group` is the party as
/// `(in a group, its leader)`, if the party state exists; `me` is our own guid, if known.
pub fn meeting_stone_cancel(cancels: u32, group: Option<(bool, u64)>, me: Option<u64>) -> (o: StoneCancelOutcome)
    ensures
        o == (if cancels == 0 {
            StoneCancelOutcome::Nothing
        } else if group matches Some((in_group, leader)) && in_group && Some(leader) != me {
            StoneCancelOutcome::NotLeader
        } else {
            StoneCancelOutcome::Send { times: cancels }
        }),
{
    if cancels == 0 {
        return StoneCancelOutcome::Nothing;
    }
    let not_leader = match group {
        Some((in_group, leader)) => in_group && match me {
            Some(m) => m != leader,
            None => true,
        },
        None => false,
    };
    if not_leader {
        StoneCancelOutcome::NotLeader
    } else {
        StoneCancelOutcome::Send { times: cancels }
    }
}

/// The generic cancel-aura routine's refusal, its first two legs: a spell whose `AttributesEx`
/// has bit 13 set and bit 2 clear is one the routine may decline to cancel (the third leg is
/// the player's state).
pub fn cancel_gate_could_apply(attributes_ex: u32) -> (b: bool)
    ensures
        b == (attributes_ex & 0x2000 != 0 && attributes_ex & 0x4 == 0),
{
    attributes_ex & 0x2000 != 0 && attributes_ex & 0x4 == 0
}

} // verus!
