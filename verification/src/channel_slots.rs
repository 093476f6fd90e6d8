//! The channels this session has joined — the client-side number law: `/1` is slot 1, `/2`
//! slot 2. It is a **slot array**, and leaving punches a hole rather than closing one: the
//! allocator reuses the first free slot, grows only while under ten, and a leave clears its slot
//! in place, so every other channel keeps its number ([`lemma_free_keeps_other_numbers`]).
//!
//! Also the chat send types an addon's `SendChatMessage` token names.

use vstd::prelude::*;
use vstd::string::*;

use crate::channel::{opt_view, slot_holds, slot_of};
use crate::chat_cache::{decimal, push_decimal};
use crate::text::{ascii_folded, eq_ignore_ascii_case, str_eq, str_eq_ignore_ascii_case};

verus! {

/// How many channels the client can hold at once — its allocator refuses the eleventh.
pub const MAX_CHANNELS: usize = 10;

/// The joined channels: slot `i` is channel number `i + 1`; `None` is a freed slot, kept so the
/// numbers above it do not move. Never longer than [`MAX_CHANNELS`].
pub struct ChannelState {
    pub joined: Vec<Option<String>>,
}

impl ChannelState {
    /// The slots as values.
    pub open spec fn slots(&self) -> Seq<Option<Seq<char>>> {
        self.joined@.map_values(|o: Option<String>| opt_view(o))
    }

    /// The state's invariant: never more than ten slots.
    pub open spec fn wf(&self) -> bool {
        self.joined@.len() <= MAX_CHANNELS
    }

    /// No channels joined.
    pub fn new() -> (s: Self)
        ensures
            s.wf(),
            s.slots().len() == 0,
    {
        ChannelState { joined: Vec::new() }
    }

    /// The 1-based number of `name` (case-insensitive), if joined.
    pub fn number_of(&self, name: &str) -> (n: Option<u32>)
        requires
            self.wf(),
        ensures
            n == number_of(self.slots(), name@),
    {
        let ghost j = self.slots();
        let len = self.joined.len();
        let mut i: usize = 0;
        while i < len
            invariant
                len == j.len() <= MAX_CHANNELS,
                j == self.slots(),
                i <= len,
                slot_of(j.subrange(0, i as int), name@) == 0,
            decreases len - i,
        {
            assert(j.subrange(0, i + 1).drop_last() =~= j.subrange(0, i as int));
            let hit = match &self.joined[i] {
                Some(c) => str_eq_ignore_ascii_case(c.as_str(), name),
                None => false,
            };
            if hit {
                proof {
                    lemma_slot_of_prefix_stable(j, name@, i + 1);
                }
                return Some((i + 1) as u32);
            }
            i = i + 1;
        }
        assert(j.subrange(0, len as int) =~= j);
        None
    }

    /// A chat event's channel, numbered: for a channel name (non-empty) that holds a slot, its
    /// number and the display form `"<n>. <name>"`; `None` for any other name, which leaves
    /// the event's channel fields as they came.
    pub fn stamp_channel(&self, channel: &str) -> (r: Option<(u32, String)>)
        requires
            self.wf(),
        ensures
            channel@.len() == 0 ==> r is None,
            channel@.len() > 0 ==> match number_of(self.slots(), channel@) {
                Some(n) => r matches Some((m, s)) && m == n && s@ == decimal(n as nat) + seq![
                    '.',
                    ' ',
                ] + channel@,
                None => r is None,
            },
    {
        if channel.unicode_len() == 0 {
            return None;
        }
        match self.number_of(channel) {
            None => None,
            Some(n) => {
                let mut s = String::new();
                push_decimal(&mut s, n as u64);
                s.append(". ");
                s.append(channel);
                proof {
                    reveal_strlit(". ");
                }
                assert(s@ =~= decimal(n as nat) + seq!['.', ' '] + channel@);
                Some((n, s))
            },
        }
    }

    /// Give `name` a slot: **the first free one**, else a new one while under ten. An
    /// already-joined name answers its own number and takes no second slot. `None` = all ten
    /// are taken.
    pub fn claim_slot(&mut self, name: &str) -> (n: Option<u32>)
        requires
            old(self).wf(),
        ensures
            final(self).wf(),
            claim_result(old(self).slots(), name@) == (n, final(self).slots()),
    {
        if let Some(n) = self.number_of(name) {
            return Some(n);
        }
        let ghost j = self.slots();
        let len = self.joined.len();
        let mut i: usize = 0;
        while i < len
            invariant
                len == j.len() <= MAX_CHANNELS,
                j == self.slots(),
                self.wf(),
                j == old(self).slots(),
                number_of(j, name@) is None,
                i <= len,
                first_free(j.subrange(0, i as int)) == -1,
            decreases len - i,
        {
            assert(j.subrange(0, i + 1).drop_last() =~= j.subrange(0, i as int));
            if self.joined[i].is_none() {
                proof {
                    lemma_first_free_prefix_stable(j, i + 1);
                }
                let ghost before = self.slots();
                self.joined.set(i, Some(name.to_owned()));
                assert(self.slots() =~= before.update(i as int, Some(name@)));
                return Some((i + 1) as u32);
            }
            i = i + 1;
        }
        assert(j.subrange(0, len as int) =~= j);
        if len >= MAX_CHANNELS {
            return None;
        }
        let ghost before = self.slots();
        self.joined.push(Some(name.to_owned()));
        assert(self.slots() =~= before.push(Some(name@)));
        Some(self.joined.len() as u32)
    }

    /// Free the slot holding `name` — **cleared in place**, so every other channel keeps its
    /// number. Answers the number that just went empty.
    pub fn free_slot(&mut self, name: &str) -> (n: Option<u32>)
        requires
            old(self).wf(),
        ensures
            final(self).wf(),
            n == number_of(old(self).slots(), name@),
            final(self).slots() == match n {
                Some(k) => old(self).slots().update(k - 1, None),
                None => old(self).slots(),
            },
    {
        let n = match self.number_of(name) {
            Some(n) => n,
            None => return None,
        };
        proof {
            lemma_slot_of_in_range(self.slots(), name@);
        }
        let ghost before = self.slots();
        self.joined.set((n - 1) as usize, None);
        assert(self.slots() =~= before.update(n - 1, None));
        Some(n)
    }
}

/// The number of the first joined channel named `name` (case-folded).
pub open spec fn number_of(j: Seq<Option<Seq<char>>>, name: Seq<char>) -> Option<u32> {
    if slot_of(j, name) == 0 {
        None
    } else {
        Some(slot_of(j, name) as u32)
    }
}

/// The index of the first freed slot, -1 if none.
pub open spec fn first_free(j: Seq<Option<Seq<char>>>) -> int
    decreases j.len(),
{
    if j.len() == 0 {
        -1
    } else if first_free(j.drop_last()) != -1 {
        first_free(j.drop_last())
    } else if j.last() is None {
        j.len() - 1
    } else {
        -1
    }
}

/// What claiming `name` answers and leaves: its own number if joined; else the first free slot
/// filled; else a new slot while under ten; else nothing, and nothing changed.
pub open spec fn claim_result(j: Seq<Option<Seq<char>>>, name: Seq<char>) -> (Option<u32>, Seq<Option<Seq<char>>>) {
    if number_of(j, name) is Some {
        (number_of(j, name), j)
    } else if first_free(j) != -1 {
        (Some((first_free(j) + 1) as u32), j.update(first_free(j), Some(name)))
    } else if j.len() < MAX_CHANNELS {
        (Some((j.len() + 1) as u32), j.push(Some(name)))
    } else {
        (None, j)
    }
}

proof fn lemma_slot_of_prefix_stable(j: Seq<Option<Seq<char>>>, name: Seq<char>, k: int)
    requires
        0 <= k <= j.len(),
        slot_of(j.subrange(0, k), name) != 0,
    ensures
        slot_of(j, name) == slot_of(j.subrange(0, k), name),
    decreases j.len() - k,
{
    if k < j.len() {
        assert(j.subrange(0, k + 1).drop_last() =~= j.subrange(0, k));
        lemma_slot_of_prefix_stable(j, name, k + 1);
    } else {
        assert(j.subrange(0, k) =~= j);
    }
}

proof fn lemma_first_free_prefix_stable(j: Seq<Option<Seq<char>>>, k: int)
    requires
        0 <= k <= j.len(),
        first_free(j.subrange(0, k)) != -1,
    ensures
        first_free(j) == first_free(j.subrange(0, k)),
    decreases j.len() - k,
{
    if k < j.len() {
        assert(j.subrange(0, k + 1).drop_last() =~= j.subrange(0, k));
        lemma_first_free_prefix_stable(j, k + 1);
    } else {
        assert(j.subrange(0, k) =~= j);
    }
}

/// A found slot is in range and holds the name.
proof fn lemma_slot_of_in_range(j: Seq<Option<Seq<char>>>, name: Seq<char>)
    ensures
        0 <= slot_of(j, name) <= j.len(),
        slot_of(j, name) != 0 ==> slot_holds(j[slot_of(j, name) - 1], name),
        forall|i: int| 0 <= i < slot_of(j, name) - 1 ==> !slot_holds(#[trigger] j[i], name),
        slot_of(j, name) == 0 ==> forall|i: int| 0 <= i < j.len() ==> !slot_holds(#[trigger] j[i], name),
    decreases j.len(),
{
    if j.len() > 0 {
        let jp = j.drop_last();
        lemma_slot_of_in_range(jp, name);
        assert forall|i: int| 0 <= i < jp.len() implies jp[i] == #[trigger] j[i] by {}
    }
}

/// The first free slot is in range and free.
proof fn lemma_first_free_in_range(j: Seq<Option<Seq<char>>>)
    ensures
        -1 <= first_free(j) < j.len(),
        first_free(j) != -1 ==> j[first_free(j)] is None,
    decreases j.len(),
{
    if j.len() > 0 {
        lemma_first_free_in_range(j.drop_last());
        if first_free(j.drop_last()) != -1 {
            assert(j.drop_last()[first_free(j.drop_last())] == j[first_free(j.drop_last())]);
        }
    }
}

/// Case-folded equality is transitive.
proof fn lemma_eq_ignore_case_trans(a: Seq<char>, b: Seq<char>, c: Seq<char>)
    requires
        eq_ignore_ascii_case(a, b),
        eq_ignore_ascii_case(b, c),
    ensures
        eq_ignore_ascii_case(a, c),
{
    assert forall|i: int| 0 <= i < a.len() implies #[trigger] ascii_folded(a[i]) == ascii_folded(c[i]) by {
        assert(ascii_folded(a[i]) == ascii_folded(b[i]));
        assert(ascii_folded(b[i]) == ascii_folded(c[i]));
    }
}

/// Case-folded equality is symmetric.
proof fn lemma_eq_ignore_case_sym(a: Seq<char>, b: Seq<char>)
    requires
        eq_ignore_ascii_case(a, b),
    ensures
        eq_ignore_ascii_case(b, a),
{
    assert forall|i: int| 0 <= i < b.len() implies #[trigger] ascii_folded(b[i]) == ascii_folded(a[i]) by {
        assert(ascii_folded(a[i]) == ascii_folded(b[i]));
    }
}

/// Leaving punches a hole: after `name`'s slot is cleared, every channel not named `name` keeps
/// its number.
pub proof fn lemma_free_keeps_other_numbers(j: Seq<Option<Seq<char>>>, name: Seq<char>, other: Seq<char>)
    requires
        number_of(j, name) is Some,
        !eq_ignore_ascii_case(other, name),
        j.len() <= MAX_CHANNELS,
    ensures
        number_of(j.update(number_of(j, name).unwrap() - 1, None), other) == number_of(j, other),
{
    let k = slot_of(j, name) - 1;
    let j2 = j.update(k, None);
    lemma_slot_of_in_range(j, name);
    lemma_slot_of_in_range(j, other);
    lemma_slot_of_in_range(j2, other);
    // The freed slot held a name equal (case-folded) to `name`, so never `other`.
    if let Some(c) = j[k] {
        if eq_ignore_ascii_case(c, other) {
            lemma_eq_ignore_case_sym(c, other);
            lemma_eq_ignore_case_trans(other, c, name);
        }
    }
    assert(!slot_holds(j[k], other));
    assert forall|i: int| 0 <= i < j.len() implies slot_holds(#[trigger] j2[i], other) == slot_holds(j[i], other) by {
        if i == k {
        }
    }
    let a = slot_of(j, other);
    let b = slot_of(j2, other);
    if a != 0 && b != 0 {
        assert(slot_holds(j2[a - 1], other));
        assert(slot_holds(j[b - 1], other));
    } else if a != 0 {
        assert(slot_holds(j2[a - 1], other));
    } else if b != 0 {
        assert(slot_holds(j[b - 1], other));
    }
}

/// A claim that succeeds leaves `name` joined under the number it answered.
pub proof fn lemma_claim_then_number(j: Seq<Option<Seq<char>>>, name: Seq<char>)
    requires
        j.len() <= MAX_CHANNELS,
    ensures
        ({
            let (n, j2) = claim_result(j, name);
            n is Some ==> number_of(j2, name) == n && j2.len() <= MAX_CHANNELS
        }),
{
    lemma_slot_of_in_range(j, name);
    lemma_first_free_in_range(j);
    let (n, j2) = claim_result(j, name);
    if number_of(j, name) is None && n is Some {
        lemma_slot_of_in_range(j2, name);
        let k: int = if first_free(j) != -1 { first_free(j) } else { j.len() as int };
        assert(0 <= k < j2.len());
        assert(forall|i: int| 0 <= i < j.len() && i != k ==> j2[i] == j[i]);
        assert(j2[k] == Some(name));
        assert(eq_ignore_ascii_case(name, name));
        assert(slot_holds(j2[k], name));
        let b = slot_of(j2, name);
        if b != 0 && b - 1 != k {
            assert(slot_holds(j[b - 1], name));
        }
        assert(b == k + 1);
    }
}

/// The chat types an addon can send — the chat-type tokens `SendChatMessage` takes.
#[derive(Clone, Copy, Debug, PartialEq, Eq)]
pub enum SendType {
    Say,
    Yell,
    Emote,
    Whisper,
    Party,
    Raid,
    RaidLeader,
    RaidWarning,
    Guild,
    Officer,
    Battleground,
    BattlegroundLeader,
    Channel,
}

/// The token each send type answers to — the uppercase chat-type keys.
pub open spec fn send_type_token(t: SendType) -> Seq<char> {
    match t {
        SendType::Say => "SAY"@,
        SendType::Yell => "YELL"@,
        SendType::Emote => "EMOTE"@,
        SendType::Whisper => "WHISPER"@,
        SendType::Party => "PARTY"@,
        SendType::Raid => "RAID"@,
        SendType::RaidLeader => "RAID_LEADER"@,
        SendType::RaidWarning => "RAID_WARNING"@,
        SendType::Guild => "GUILD"@,
        SendType::Officer => "OFFICER"@,
        SendType::Battleground => "BATTLEGROUND"@,
        SendType::BattlegroundLeader => "BATTLEGROUND_LEADER"@,
        SendType::Channel => "CHANNEL"@,
    }
}

impl SendType {
    /// The send type a token names — exactly, case and all — or `None` for a token not sent
    /// (`"AFK"`, `"DND"`, or anything made up): the caller reports it rather than guessing SAY.
    pub fn from_token(token: &str) -> (t: Option<SendType>)
        ensures
            match t {
                Some(t) => send_type_token(t) == token@,
                None => forall|u: SendType| send_type_token(u) != token@,
            },
    {
        let all = [
            SendType::Say,
            SendType::Yell,
            SendType::Emote,
            SendType::Whisper,
            SendType::Party,
            SendType::Raid,
            SendType::RaidLeader,
            SendType::RaidWarning,
            SendType::Guild,
            SendType::Officer,
            SendType::Battleground,
            SendType::BattlegroundLeader,
            SendType::Channel,
        ];
        let mut i: usize = 0;
        while i < 13
            invariant
                i <= 13,
                all@ == seq![
                    SendType::Say,
                    SendType::Yell,
                    SendType::Emote,
                    SendType::Whisper,
                    SendType::Party,
                    SendType::Raid,
                    SendType::RaidLeader,
                    SendType::RaidWarning,
                    SendType::Guild,
                    SendType::Officer,
                    SendType::Battleground,
                    SendType::BattlegroundLeader,
                    SendType::Channel,
                ],
                forall|k: int| 0 <= k < i ==> send_type_token(#[trigger] all@[k]) != token@,
            decreases 13 - i,
        {
            let t = all[i];
            if str_eq(token_of(t), token) {
                return Some(t);
            }
            i = i + 1;
        }
        assert forall|u: SendType| send_type_token(u) != token@ by {
            let k: int = match u {
                SendType::Say => 0,
                SendType::Yell => 1,
                SendType::Emote => 2,
                SendType::Whisper => 3,
                SendType::Party => 4,
                SendType::Raid => 5,
                SendType::RaidLeader => 6,
                SendType::RaidWarning => 7,
                SendType::Guild => 8,
                SendType::Officer => 9,
                SendType::Battleground => 10,
                SendType::BattlegroundLeader => 11,
                SendType::Channel => 12,
            };
            assert(all@[k] == u);
        }
        None
    }
}

fn token_of(t: SendType) -> (s: &'static str)
    ensures
        s@ == send_type_token(t),
{
    match t {
        SendType::Say => "SAY",
        SendType::Yell => "YELL",
        SendType::Emote => "EMOTE",
        SendType::Whisper => "WHISPER",
        SendType::Party => "PARTY",
        SendType::Raid => "RAID",
        SendType::RaidLeader => "RAID_LEADER",
        SendType::RaidWarning => "RAID_WARNING",
        SendType::Guild => "GUILD",
        SendType::Officer => "OFFICER",
        SendType::Battleground => "BATTLEGROUND",
        SendType::BattlegroundLeader => "BATTLEGROUND_LEADER",
        SendType::Channel => "CHANNEL",
    }
}

/// **Each token names the send type of the same name.** `"SAY"` is said, `"YELL"` yelled,
/// `"GUILD"` goes to the guild and `"OFFICER"` to its officers, and so on for every chat-type
/// key: a send type answers to its own key and to no other, so
/// [`SendType::from_token`] gives `Some` of that type for each key.
pub proof fn lemma_tokens_name_their_own_types(t: SendType)
    ensures
        send_type_token(t) == "SAY"@ <==> t == SendType::Say,
        send_type_token(t) == "YELL"@ <==> t == SendType::Yell,
        send_type_token(t) == "EMOTE"@ <==> t == SendType::Emote,
        send_type_token(t) == "WHISPER"@ <==> t == SendType::Whisper,
        send_type_token(t) == "PARTY"@ <==> t == SendType::Party,
        send_type_token(t) == "RAID"@ <==> t == SendType::Raid,
        send_type_token(t) == "RAID_LEADER"@ <==> t == SendType::RaidLeader,
        send_type_token(t) == "RAID_WARNING"@ <==> t == SendType::RaidWarning,
        send_type_token(t) == "GUILD"@ <==> t == SendType::Guild,
        send_type_token(t) == "OFFICER"@ <==> t == SendType::Officer,
        send_type_token(t) == "BATTLEGROUND"@ <==> t == SendType::Battleground,
        send_type_token(t) == "BATTLEGROUND_LEADER"@ <==> t == SendType::BattlegroundLeader,
        send_type_token(t) == "CHANNEL"@ <==> t == SendType::Channel,
{
    reveal_strlit("SAY");
    reveal_strlit("YELL");
    reveal_strlit("EMOTE");
    reveal_strlit("WHISPER");
    reveal_strlit("PARTY");
    reveal_strlit("RAID");
    reveal_strlit("RAID_LEADER");
    reveal_strlit("RAID_WARNING");
    reveal_strlit("GUILD");
    reveal_strlit("OFFICER");
    reveal_strlit("BATTLEGROUND");
    reveal_strlit("BATTLEGROUND_LEADER");
    reveal_strlit("CHANNEL");
    assert("SAY"@.len() == 3 && "SAY"@[0] == 'S');
    assert("YELL"@.len() == 4 && "YELL"@[0] == 'Y');
    assert("EMOTE"@.len() == 5 && "EMOTE"@[0] == 'E');
    assert("WHISPER"@.len() == 7 && "WHISPER"@[0] == 'W');
    assert("PARTY"@.len() == 5 && "PARTY"@[0] == 'P');
    assert("RAID"@.len() == 4 && "RAID"@[0] == 'R');
    assert("RAID_LEADER"@.len() == 11 && "RAID_LEADER"@[0] == 'R');
    assert("RAID_WARNING"@.len() == 12 && "RAID_WARNING"@[0] == 'R');
    assert("GUILD"@.len() == 5 && "GUILD"@[0] == 'G');
    assert("OFFICER"@.len() == 7 && "OFFICER"@[0] == 'O');
    assert("BATTLEGROUND"@.len() == 12 && "BATTLEGROUND"@[0] == 'B');
    assert("BATTLEGROUND_LEADER"@.len() == 19 && "BATTLEGROUND_LEADER"@[0] == 'B');
    assert("CHANNEL"@.len() == 7 && "CHANNEL"@[0] == 'C');
    match t {
        SendType::Say => {
            assert(send_type_token(t).len() == 3 && send_type_token(t)[0] == 'S');
        },
        SendType::Yell => {
            assert(send_type_token(t).len() == 4 && send_type_token(t)[0] == 'Y');
        },
        SendType::Emote => {
            assert(send_type_token(t).len() == 5 && send_type_token(t)[0] == 'E');
        },
        SendType::Whisper => {
            assert(send_type_token(t).len() == 7 && send_type_token(t)[0] == 'W');
        },
        SendType::Party => {
            assert(send_type_token(t).len() == 5 && send_type_token(t)[0] == 'P');
        },
        SendType::Raid => {
            assert(send_type_token(t).len() == 4 && send_type_token(t)[0] == 'R');
        },
        SendType::RaidLeader => {
            assert(send_type_token(t).len() == 11 && send_type_token(t)[0] == 'R');
        },
        SendType::RaidWarning => {
            assert(send_type_token(t).len() == 12 && send_type_token(t)[0] == 'R');
        },
        SendType::Guild => {
            assert(send_type_token(t).len() == 5 && send_type_token(t)[0] == 'G');
        },
        SendType::Officer => {
            assert(send_type_token(t).len() == 7 && send_type_token(t)[0] == 'O');
        },
        SendType::Battleground => {
            assert(send_type_token(t).len() == 12 && send_type_token(t)[0] == 'B');
        },
        SendType::BattlegroundLeader => {
            assert(send_type_token(t).len() == 19 && send_type_token(t)[0] == 'B');
        },
        SendType::Channel => {
            assert(send_type_token(t).len() == 7 && send_type_token(t)[0] == 'C');
        },
    }
}

} // verus!
