//! The joined-channel verbs: `GetChannelName` and `GetChannelList` over the joined slots,
//! `JoinChannelByName` and `EnumerateServerChannels` over the zone's channel catalog, and the
//! management verbs, each of which queues a [`ChannelCommand`] for the app to send.
//!
//! The slot numbering is one law for both lookups — position in the joined list plus one — so
//! `GetChannelName` and `GetChannelList` can never disagree about which channel is 3
//! ([`lemma_name_and_list_agree`]).

use vstd::prelude::*;
use vstd::string::*;

use crate::script::UiScript;
use crate::text::{
    contains_char, eq_ignore_ascii_case, parse_usize, spec_parse_usize, str_eq_ignore_ascii_case,
    trim, trimmed,
};

verus! {

/// One channel-catalog row as the verbs need it: the channel id, the **shortcut** every verb
/// compares a typed name against (whole, case-folded), the name composed for the current zone
/// (`None` while the zone text is empty), and whether the row is listed here at all.
#[derive(Clone, Debug, PartialEq, Eq)]
pub struct ZoneChannelRow {
    pub id: u32,
    pub shortcut: String,
    pub resolved: Option<String>,
    pub listed: bool,
}

pub struct ZoneChannelRowView {
    pub id: u32,
    pub shortcut: Seq<char>,
    pub resolved: Option<Seq<char>>,
    pub listed: bool,
}

/// An optional string as an optional character sequence.
pub open spec fn opt_view(o: Option<String>) -> Option<Seq<char>> {
    match o {
        Some(s) => Some(s@),
        None => None,
    }
}

impl View for ZoneChannelRow {
    type V = ZoneChannelRowView;

    open spec fn view(&self) -> ZoneChannelRowView {
        ZoneChannelRowView {
            id: self.id,
            shortcut: self.shortcut@,
            resolved: opt_view(self.resolved),
            listed: self.listed,
        }
    }
}

/// A channel verb's ask, drained by the app into its client packet. One variant per verb.
#[derive(Clone, Debug, PartialEq, Eq)]
pub enum ChannelCommand {
    /// `JoinChannelByName(name, password)`.
    Join { name: String, password: String },
    /// `LeaveChannelByName(name)`.
    Leave { name: String },
    /// `ListChannelByName(name)`.
    List { name: String },
    /// `ListChannels()` — the roster of every joined channel.
    ListAll,
    /// `DisplayChannelOwner(name)`.
    DisplayOwner { name: String },
    /// `SetChannelOwner(name, player)`.
    SetOwner { name: String, player: String },
    /// `SetChannelPassword(name, password)`.
    SetPassword { name: String, password: String },
    Ban { name: String, player: String },
    Invite { name: String, player: String },
    Kick { name: String, player: String },
    Moderator { name: String, player: String },
    Unmoderator { name: String, player: String },
    Mute { name: String, player: String },
    Unmute { name: String, player: String },
    Unban { name: String, player: String },
    /// `ChannelModerate(name)` — toggles moderation.
    Moderate { name: String },
    /// `ChannelToggleAnnouncements(name)`.
    ToggleAnnouncements { name: String },
}

/// Which verb a command is.
#[derive(Clone, Copy, Debug, PartialEq, Eq)]
pub enum ChannelCommandKind {
    Join,
    Leave,
    List,
    ListAll,
    DisplayOwner,
    SetOwner,
    SetPassword,
    Ban,
    Invite,
    Kick,
    Moderator,
    Unmoderator,
    Mute,
    Unmute,
    Unban,
    Moderate,
    ToggleAnnouncements,
}

/// A command as its verb, its channel name and its second argument (the password or the
/// player; empty for the verbs without one).
pub struct ChannelCommandView {
    pub kind: ChannelCommandKind,
    pub name: Seq<char>,
    pub arg: Seq<char>,
}

pub open spec fn command(kind: ChannelCommandKind, name: Seq<char>, arg: Seq<char>) -> ChannelCommandView {
    ChannelCommandView { kind, name, arg }
}

impl View for ChannelCommand {
    type V = ChannelCommandView;

    open spec fn view(&self) -> ChannelCommandView {
        match self {
            ChannelCommand::Join { name, password } => command(ChannelCommandKind::Join, name@, password@),
            ChannelCommand::Leave { name } => command(ChannelCommandKind::Leave, name@, Seq::empty()),
            ChannelCommand::List { name } => command(ChannelCommandKind::List, name@, Seq::empty()),
            ChannelCommand::ListAll => command(ChannelCommandKind::ListAll, Seq::empty(), Seq::empty()),
            ChannelCommand::DisplayOwner { name } => command(ChannelCommandKind::DisplayOwner, name@, Seq::empty()),
            ChannelCommand::SetOwner { name, player } => command(ChannelCommandKind::SetOwner, name@, player@),
            ChannelCommand::SetPassword { name, password } => command(ChannelCommandKind::SetPassword, name@, password@),
            ChannelCommand::Ban { name, player } => command(ChannelCommandKind::Ban, name@, player@),
            ChannelCommand::Invite { name, player } => command(ChannelCommandKind::Invite, name@, player@),
            ChannelCommand::Kick { name, player } => command(ChannelCommandKind::Kick, name@, player@),
            ChannelCommand::Moderator { name, player } => command(ChannelCommandKind::Moderator, name@, player@),
            ChannelCommand::Unmoderator { name, player } => command(ChannelCommandKind::Unmoderator, name@, player@),
            ChannelCommand::Mute { name, player } => command(ChannelCommandKind::Mute, name@, player@),
            ChannelCommand::Unmute { name, player } => command(ChannelCommandKind::Unmute, name@, player@),
            ChannelCommand::Unban { name, player } => command(ChannelCommandKind::Unban, name@, player@),
            ChannelCommand::Moderate { name } => command(ChannelCommandKind::Moderate, name@, Seq::empty()),
            ChannelCommand::ToggleAnnouncements { name } => command(ChannelCommandKind::ToggleAnnouncements, name@, Seq::empty()),
        }
    }
}

/// The verbs that take one channel name.
#[derive(Clone, Copy, Debug, PartialEq, Eq)]
pub enum ChannelNameVerb {
    /// `LeaveChannelByName`.
    Leave,
    /// `ListChannelByName`.
    List,
    /// `DisplayChannelOwner`.
    DisplayOwner,
    /// `ChannelModerate`.
    Moderate,
    /// `ChannelToggleAnnouncements`.
    ToggleAnnouncements,
}

/// The verbs that take a channel name and a second name — a player, or the password.
#[derive(Clone, Copy, Debug, PartialEq, Eq)]
pub enum ChannelPairVerb {
    /// `SetChannelOwner`.
    SetOwner,
    /// `SetChannelPassword`.
    SetPassword,
    /// `ChannelBan`.
    Ban,
    /// `ChannelInvite`.
    Invite,
    /// `ChannelKick`.
    Kick,
    /// `ChannelModerator`.
    Moderator,
    /// `ChannelUnmoderator`.
    Unmoderator,
    /// `ChannelMute`.
    Mute,
    /// `ChannelUnmute`.
    Unmute,
    /// `ChannelUnban`.
    Unban,
}

pub open spec fn name_verb_kind(v: ChannelNameVerb) -> ChannelCommandKind {
    match v {
        ChannelNameVerb::Leave => ChannelCommandKind::Leave,
        ChannelNameVerb::List => ChannelCommandKind::List,
        ChannelNameVerb::DisplayOwner => ChannelCommandKind::DisplayOwner,
        ChannelNameVerb::Moderate => ChannelCommandKind::Moderate,
        ChannelNameVerb::ToggleAnnouncements => ChannelCommandKind::ToggleAnnouncements,
    }
}

pub open spec fn pair_verb_kind(v: ChannelPairVerb) -> ChannelCommandKind {
    match v {
        ChannelPairVerb::SetOwner => ChannelCommandKind::SetOwner,
        ChannelPairVerb::SetPassword => ChannelCommandKind::SetPassword,
        ChannelPairVerb::Ban => ChannelCommandKind::Ban,
        ChannelPairVerb::Invite => ChannelCommandKind::Invite,
        ChannelPairVerb::Kick => ChannelCommandKind::Kick,
        ChannelPairVerb::Moderator => ChannelCommandKind::Moderator,
        ChannelPairVerb::Unmoderator => ChannelCommandKind::Unmoderator,
        ChannelPairVerb::Mute => ChannelCommandKind::Mute,
        ChannelPairVerb::Unmute => ChannelCommandKind::Unmute,
        ChannelPairVerb::Unban => ChannelCommandKind::Unban,
    }
}

/// `GetChannelName`'s argument, as the script passed it.
#[derive(Clone, Debug, PartialEq, Eq)]
pub enum ChannelKey {
    /// A number (the app truncates a float to its integer part, as the engine does).
    Index(i64),
    /// A string — a channel name, or a number written as text.
    Text(String),
    /// Anything else.
    Other,
}

/// A string the script passed, trimmed, unless it was absent or blank.
pub open spec fn non_empty(o: Option<Seq<char>>) -> Option<Seq<char>> {
    match o {
        Some(s) => if trim(s).len() > 0 {
            Some(trim(s))
        } else {
            None
        },
        None => None,
    }
}

/// Whether slot contents `o` hold `name`, case-folded.
pub open spec fn slot_holds(o: Option<Seq<char>>, name: Seq<char>) -> bool {
    o matches Some(c) && eq_ignore_ascii_case(c, name)
}

/// The 1-based slot of the first joined channel named `name` (case-insensitively), 0 if none.
pub open spec fn slot_of(j: Seq<Option<Seq<char>>>, name: Seq<char>) -> int
    decreases j.len(),
{
    if j.len() == 0 {
        0
    } else if slot_of(j.drop_last(), name) != 0 {
        slot_of(j.drop_last(), name)
    } else if slot_holds(j.last(), name) {
        j.len() as int
    } else {
        0
    }
}

/// The name in 1-based slot `n`: `None` out of range **or for a freed slot**.
pub open spec fn name_at(j: Seq<Option<Seq<char>>>, n: int) -> Option<Seq<char>> {
    if 1 <= n <= j.len() {
        j[n - 1]
    } else {
        None
    }
}

/// Which slot `GetChannelName` answers for `key`, 0 for "not joined": a number names a slot
/// (and answers only for an occupied one), a string that parses as a number does too, and any
/// other string is looked up by name.
pub open spec fn key_slot(j: Seq<Option<Seq<char>>>, key: ChannelKey) -> int {
    match key {
        ChannelKey::Index(i) => if name_at(j, i as int) is Some {
            i as int
        } else {
            0
        },
        ChannelKey::Text(s) => match spec_parse_usize(trim(s@)) {
            Some(n) => if name_at(j, n as int) is Some {
                n as int
            } else {
                0
            },
            None => slot_of(j, s@),
        },
        ChannelKey::Other => 0,
    }
}

/// `GetChannelName`'s three returns as values: the slot (0 when not joined), the name (none when
/// not joined), and the instance id, always 0.
pub open spec fn channel_name_answer(j: Seq<Option<Seq<char>>>, key: ChannelKey) -> (i64, Option<Seq<char>>, i64) {
    let slot = key_slot(j, key);
    if slot == 0 {
        (0, None, 0)
    } else {
        (slot as i64, name_at(j, slot), 0)
    }
}

/// `GetChannelList`'s flat pairs, in slot order: every occupied slot's number and name.
pub open spec fn channel_list(j: Seq<Option<Seq<char>>>) -> Seq<(i64, Seq<char>)>
    decreases j.len(),
{
    if j.len() == 0 {
        Seq::empty()
    } else {
        match j.last() {
            Some(name) => channel_list(j.drop_last()).push((j.len() as i64, name)),
            None => channel_list(j.drop_last()),
        }
    }
}

/// The first catalog row whose shortcut is `name`, case-folded.
pub open spec fn catalog_row(cat: Seq<ZoneChannelRowView>, name: Seq<char>) -> Option<ZoneChannelRowView>
    decreases cat.len(),
{
    if cat.len() == 0 {
        None
    } else if eq_ignore_ascii_case(cat[0].shortcut, name) {
        Some(cat[0])
    } else {
        catalog_row(cat.drop_first(), name)
    }
}

/// `JoinChannelByName(name, password)`: what it returns — `None` for the single nil, else the
/// channel id (0 for a custom channel) and the resolved name (none for a custom channel) — and
/// the command it queues, if any. A blank name, a name with a space, and a catalog row whose
/// zone substitution is empty all answer nil and queue nothing; both other legs queue the join,
/// under the resolved name for a row.
pub open spec fn join_answer(
    cat: Seq<ZoneChannelRowView>,
    name: Option<Seq<char>>,
    password: Option<Seq<char>>,
) -> (Option<(u32, Option<Seq<char>>)>, Option<ChannelCommandView>) {
    let pw = match password {
        Some(p) => p,
        None => Seq::empty(),
    };
    match non_empty(name) {
        None => (None, None),
        Some(t) => if t.contains(' ') {
            (None, None)
        } else {
            match catalog_row(cat, t) {
                None => (Some((0, None)), Some(command(ChannelCommandKind::Join, t, pw))),
                Some(row) => match row.resolved {
                    None => (None, None),
                    Some(r) => (
                        Some((row.id, Some(r))),
                        Some(command(ChannelCommandKind::Join, r, pw)),
                    ),
                },
            }
        },
    }
}

/// The listed rows' shortcuts, in catalog order.
pub open spec fn listed_shortcuts(cat: Seq<ZoneChannelRowView>) -> Seq<Seq<char>>
    decreases cat.len(),
{
    if cat.len() == 0 {
        Seq::empty()
    } else if cat.last().listed {
        listed_shortcuts(cat.drop_last()).push(cat.last().shortcut)
    } else {
        listed_shortcuts(cat.drop_last())
    }
}

/// A queue with `c` appended when there is one.
pub open spec fn queued_after(q: Seq<ChannelCommandView>, c: Option<ChannelCommandView>) -> Seq<ChannelCommandView> {
    match c {
        Some(c) => q.push(c),
        None => q,
    }
}

/// What a one-name verb queues: its command under the trimmed name, unless the name is blank.
pub open spec fn name_verb_command(verb: ChannelNameVerb, name: Option<Seq<char>>) -> Option<ChannelCommandView> {
    match non_empty(name) {
        Some(t) => Some(command(name_verb_kind(verb), t, Seq::empty())),
        None => None,
    }
}

/// What a two-name verb queues: nothing for a blank channel name, nothing for a blank player —
/// but a password may be empty — and otherwise its command with both trimmed.
pub open spec fn pair_verb_command(
    verb: ChannelPairVerb,
    name: Option<Seq<char>>,
    second: Option<Seq<char>>,
) -> Option<ChannelCommandView> {
    let s = match second {
        Some(s) => s,
        None => Seq::empty(),
    };
    match non_empty(name) {
        Some(t) => if verb == ChannelPairVerb::SetPassword || trim(s).len() > 0 {
            Some(command(pair_verb_kind(verb), t, trim(s)))
        } else {
            None
        },
        None => None,
    }
}

impl UiScript {
    /// The joined slots as values.
    pub open spec fn joined_view(&self) -> Seq<Option<Seq<char>>> {
        self.joined_channels@.map_values(|o: Option<String>| opt_view(o))
    }

    /// The catalog rows as values.
    pub open spec fn catalog_view(&self) -> Seq<ZoneChannelRowView> {
        self.zone_channel_catalog@.map_values(|r: ZoneChannelRow| r@)
    }

    /// The queued channel commands as values, oldest first.
    pub open spec fn commands_view(&self) -> Seq<ChannelCommandView> {
        self.channel_commands@.map_values(|c: ChannelCommand| c@)
    }

    /// Everything but the channel-command queue is as in `other`.
    pub open spec fn same_but_commands(&self, other: &UiScript) -> bool {
        &&& self.zone_channel_catalog@ == other.zone_channel_catalog@
        &&& self.joined_channels@ == other.joined_channels@
        &&& self.social == other.social
        &&& self.social_requests@ == other.social_requests@
        &&& self.looking_for_group == other.looking_for_group
    }

    /// The zone-channel catalog for the player's current zone — fed whenever the zone (and so
    /// every resolved name) changes.
    pub fn set_zone_channel_catalog(&mut self, rows: Vec<ZoneChannelRow>)
        ensures
            final(self).zone_channel_catalog@ == rows@,
            final(self).channel_commands@ == old(self).channel_commands@,
            final(self).joined_channels@ == old(self).joined_channels@,
            final(self).social == old(self).social,
            final(self).social_requests@ == old(self).social_requests@,
            final(self).looking_for_group == old(self).looking_for_group,
    {
        self.zone_channel_catalog = rows;
    }

    /// Channel verbs called since the last drain, in call order; the queue is empty after.
    pub fn take_channel_commands(&mut self) -> (cmds: Vec<ChannelCommand>)
        ensures
            cmds@ == old(self).channel_commands@,
            final(self).channel_commands@.len() == 0,
            final(self).same_but_commands(old(self)),
    {
        let mut cmds: Vec<ChannelCommand> = Vec::new();
        std::mem::swap(&mut cmds, &mut self.channel_commands);
        cmds
    }

    /// Mirror the app's confirmed-joined channel list, in join order (`None` a freed slot).
    pub fn set_joined_channels(&mut self, joined: Vec<Option<String>>)
        ensures
            final(self).joined_channels@ == joined@,
            final(self).zone_channel_catalog@ == old(self).zone_channel_catalog@,
            final(self).channel_commands@ == old(self).channel_commands@,
            final(self).social == old(self).social,
            final(self).social_requests@ == old(self).social_requests@,
            final(self).looking_for_group == old(self).looking_for_group,
    {
        self.joined_channels = joined;
    }

    /// The name in 1-based slot `n`, if that slot is occupied.
    fn name_at(&self, n: usize) -> (r: Option<&String>)
        ensures
            opt_view(match r { Some(s) => Some(*s), None => None }) == name_at(self.joined_view(), n as int),
    {
        if n == 0 || n > self.joined_channels.len() {
            return None;
        }
        match &self.joined_channels[n - 1] {
            Some(s) => Some(s),
            None => None,
        }
    }

    /// The 1-based slot of the first joined channel named `name`, case-insensitively; 0 if none.
    fn slot_of(&self, name: &str) -> (slot: usize)
        ensures
            slot as int == slot_of(self.joined_view(), name@),
    {
        let ghost j = self.joined_view();
        let n = self.joined_channels.len();
        let mut i: usize = 0;
        while i < n
            invariant
                n == j.len(),
                j == self.joined_view(),
                i <= n,
                slot_of(j.subrange(0, i as int), name@) == 0,
            decreases n - i,
        {
            let ghost upto = j.subrange(0, i + 1);
            assert(upto.drop_last() =~= j.subrange(0, i as int));
            let hit = match &self.joined_channels[i] {
                Some(c) => str_eq_ignore_ascii_case(c.as_str(), name),
                None => false,
            };
            if hit {
                proof {
                    lemma_slot_of_prefix(j, name@, i + 1);
                }
                return i + 1;
            }
            i = i + 1;
        }
        assert(j.subrange(0, n as int) =~= j);
        0
    }

    /// `GetChannelName(indexOrName)` → slot, name, instance id. The first return is always a
    /// number — 0 when the channel is not joined, with no name — and the instance id is always 0.
    pub fn get_channel_name(&self, key: &ChannelKey) -> (r: (i64, Option<String>, i64))
        ensures
            (r.0, opt_view(r.1), r.2) == channel_name_answer(self.joined_view(), *key),
    {
        let slot: usize = match key {
            ChannelKey::Index(i) => {
                if *i >= 1 && (*i as u64) <= (self.joined_channels.len() as u64) {
                    let n = *i as usize;
                    if self.name_at(n).is_some() {
                        n
                    } else {
                        0
                    }
                } else {
                    0
                }
            },
            ChannelKey::Text(s) => {
                let t = trimmed(s.as_str());
                match parse_usize(t.as_str()) {
                    Some(n) => if self.name_at(n).is_some() {
                        n
                    } else {
                        0
                    },
                    None => self.slot_of(s.as_str()),
                }
            },
            ChannelKey::Other => 0,
        };
        if slot == 0 {
            return (0, None, 0);
        }
        proof {
            lemma_slot_of_occupied(self.joined_view(), *key);
        }
        let name = match self.name_at(slot) {
            Some(s) => s.clone(),
            None => String::new(),
        };
        (slot as i64, Some(name), 0)
    }

    /// `GetChannelList()` → the flat (slot, name) pairs over every occupied slot, in join order.
    pub fn get_channel_list(&self) -> (pairs: Vec<(i64, String)>)
        ensures
            pairs@.map_values(|p: (i64, String)| (p.0, p.1@)) == channel_list(self.joined_view()),
    {
        let ghost j = self.joined_view();
        let n = self.joined_channels.len();
        let mut out: Vec<(i64, String)> = Vec::new();
        let mut i: usize = 0;
        while i < n
            invariant
                n == j.len(),
                j == self.joined_view(),
                i <= n,
                out@.map_values(|p: (i64, String)| (p.0, p.1@)) == channel_list(j.subrange(0, i as int)),
            decreases n - i,
        {
            let ghost before = out@.map_values(|p: (i64, String)| (p.0, p.1@));
            let ghost upto = j.subrange(0, i + 1);
            assert(upto.drop_last() =~= j.subrange(0, i as int));
            match &self.joined_channels[i] {
                Some(name) => {
                    out.push(((i + 1) as i64, name.clone()));
                    assert(out@.map_values(|p: (i64, String)| (p.0, p.1@)) =~= before.push(((i + 1) as i64, name@)));
                },
                None => {},
            }
            i = i + 1;
        }
        assert(j.subrange(0, n as int) =~= j);
        out
    }

    /// `JoinChannelByName(name, password)`: see [`join_answer`] for the three legs. The frame
    /// argument the script passes is the UI's own bookkeeping and ignored here.
    pub fn join_channel_by_name(&mut self, name: Option<String>, password: Option<String>) -> (r: Option<(u32, Option<String>)>)
        ensures
            ({
                let (answer, cmd) = join_answer(old(self).catalog_view(), opt_view(name), opt_view(password));
                &&& match r {
                    None => answer is None,
                    Some((id, resolved)) => answer == Some((id, opt_view(resolved))),
                }
                &&& final(self).commands_view() == queued_after(old(self).commands_view(), cmd)
            }),
            final(self).same_but_commands(old(self)),
    {
        let ghost cat = self.catalog_view();
        let t = match non_empty_arg(name) {
            Some(t) => t,
            None => return None,
        };
        if contains_char(t.as_str(), ' ') {
            return None;
        }
        let row = self.find_row(t.as_str());
        let password = match password {
            Some(p) => p,
            None => String::new(),
        };
        match row {
            None => {
                self.push_command(ChannelCommand::Join { name: t, password });
                Some((0, None))
            },
            Some(k) => {
                let id = self.zone_channel_catalog[k].id;
                match &self.zone_channel_catalog[k].resolved {
                    None => None,
                    Some(res) => {
                        let res = res.clone();
                        let sent = res.clone();
                        self.push_command(ChannelCommand::Join { name: sent, password });
                        Some((id, Some(res)))
                    },
                }
            },
        }
    }

    /// The index of the first catalog row whose shortcut is `name`, case-insensitively.
    fn find_row(&self, name: &str) -> (k: Option<usize>)
        ensures
            match k {
                None => catalog_row(self.catalog_view(), name@) is None,
                Some(k) => k < self.zone_channel_catalog@.len() && catalog_row(self.catalog_view(), name@)
                    == Some(self.catalog_view()[k as int]),
            },
    {
        let ghost cat = self.catalog_view();
        let n = self.zone_channel_catalog.len();
        let mut i: usize = 0;
        assert(cat.subrange(0, n as int) =~= cat);
        while i < n
            invariant
                n == cat.len(),
                cat == self.catalog_view(),
                i <= n,
                catalog_row(cat, name@) == catalog_row(cat.subrange(i as int, n as int), name@),
            decreases n - i,
        {
            assert(cat.subrange(i as int, n as int).drop_first() =~= cat.subrange(i + 1, n as int));
            if str_eq_ignore_ascii_case(self.zone_channel_catalog[i].shortcut.as_str(), name) {
                return Some(i);
            }
            i = i + 1;
        }
        None
    }

    fn push_command(&mut self, c: ChannelCommand)
        ensures
            final(self).commands_view() == old(self).commands_view().push(c@),
            final(self).same_but_commands(old(self)),
    {
        self.channel_commands.push(c);
        assert(self.commands_view() =~= old(self).commands_view().push(c@));
    }

    /// `EnumerateServerChannels()` → the listed rows' shortcuts in catalog order — never the
    /// composed zone name; none while the catalog is empty.
    pub fn enumerate_server_channels(&self) -> (names: Vec<String>)
        ensures
            names@.map_values(|s: String| s@) == listed_shortcuts(self.catalog_view()),
    {
        let ghost cat = self.catalog_view();
        let n = self.zone_channel_catalog.len();
        let mut out: Vec<String> = Vec::new();
        let mut i: usize = 0;
        while i < n
            invariant
                n == cat.len(),
                cat == self.catalog_view(),
                i <= n,
                out@.map_values(|s: String| s@) == listed_shortcuts(cat.subrange(0, i as int)),
            decreases n - i,
        {
            let ghost before = out@.map_values(|s: String| s@);
            assert(cat.subrange(0, i + 1).drop_last() =~= cat.subrange(0, i as int));
            if self.zone_channel_catalog[i].listed {
                out.push(self.zone_channel_catalog[i].shortcut.clone());
                assert(out@.map_values(|s: String| s@) =~= before.push(cat[i as int].shortcut));
            }
            i = i + 1;
        }
        assert(cat.subrange(0, n as int) =~= cat);
        out
    }

    /// The one-name verbs (`LeaveChannelByName`, `ListChannelByName`, `DisplayChannelOwner`,
    /// `ChannelModerate`, `ChannelToggleAnnouncements`): each queues its command under the
    /// trimmed name, and a blank name queues nothing.
    pub fn channel_name_verb(&mut self, verb: ChannelNameVerb, name: Option<String>)
        ensures
            final(self).commands_view() == queued_after(old(self).commands_view(), name_verb_command(verb, opt_view(name))),
            final(self).same_but_commands(old(self)),
    {
        if let Some(name) = non_empty_arg(name) {
            let c = match verb {
                ChannelNameVerb::Leave => ChannelCommand::Leave { name },
                ChannelNameVerb::List => ChannelCommand::List { name },
                ChannelNameVerb::DisplayOwner => ChannelCommand::DisplayOwner { name },
                ChannelNameVerb::Moderate => ChannelCommand::Moderate { name },
                ChannelNameVerb::ToggleAnnouncements => ChannelCommand::ToggleAnnouncements { name },
            };
            self.push_command(c);
        }
    }

    /// `ListChannels()` — queues the roster request.
    pub fn list_channels(&mut self)
        ensures
            final(self).commands_view() == old(self).commands_view().push(
                command(ChannelCommandKind::ListAll, Seq::empty(), Seq::empty()),
            ),
            final(self).same_but_commands(old(self)),
    {
        self.push_command(ChannelCommand::ListAll);
    }

    /// The two-name verbs: `(channel, player)`, or `(channel, password)` for
    /// `SetChannelPassword`. A blank channel name queues nothing; a blank player queues nothing;
    /// a password may be empty (it clears the password). Both names are trimmed.
    pub fn channel_pair_verb(&mut self, verb: ChannelPairVerb, name: Option<String>, second: Option<String>)
        ensures
            final(self).commands_view() == queued_after(
                old(self).commands_view(),
                pair_verb_command(verb, opt_view(name), opt_view(second)),
            ),
            final(self).same_but_commands(old(self)),
    {
        if let Some(name) = non_empty_arg(name) {
            let second = match second {
                Some(s) => s,
                None => String::new(),
            };
            let second = trimmed(second.as_str());
            let is_password = match verb {
                ChannelPairVerb::SetPassword => true,
                _ => false,
            };
            if is_password || second.as_str().unicode_len() > 0 {
                let c = match verb {
                    ChannelPairVerb::SetOwner => ChannelCommand::SetOwner { name, player: second },
                    ChannelPairVerb::SetPassword => ChannelCommand::SetPassword { name, password: second },
                    ChannelPairVerb::Ban => ChannelCommand::Ban { name, player: second },
                    ChannelPairVerb::Invite => ChannelCommand::Invite { name, player: second },
                    ChannelPairVerb::Kick => ChannelCommand::Kick { name, player: second },
                    ChannelPairVerb::Moderator => ChannelCommand::Moderator { name, player: second },
                    ChannelPairVerb::Unmoderator => ChannelCommand::Unmoderator { name, player: second },
                    ChannelPairVerb::Mute => ChannelCommand::Mute { name, player: second },
                    ChannelPairVerb::Unmute => ChannelCommand::Unmute { name, player: second },
                    ChannelPairVerb::Unban => ChannelCommand::Unban { name, player: second },
                };
                self.push_command(c);
            }
        }
    }
}

/// A string the script passed, trimmed, unless it was absent or blank.
pub fn non_empty_arg(s: Option<String>) -> (r: Option<String>)
    ensures
        opt_view(r) == non_empty(opt_view(s)),
{
    match s {
        None => None,
        Some(s) => {
            let t = trimmed(s.as_str());
            if t.as_str().unicode_len() == 0 {
                None
            } else {
                Some(t)
            }
        },
    }
}

/// `GetChannelList` lists exactly the occupied slots, each under its own number.
pub proof fn lemma_channel_list_members(j: Seq<Option<Seq<char>>>, s: i64, nm: Seq<char>)
    requires
        j.len() <= i64::MAX,
    ensures
        channel_list(j).contains((s, nm)) <==> (1 <= s <= j.len() && j[s - 1] == Some(nm)),
    decreases j.len(),
{
    if j.len() > 0 {
        let jp = j.drop_last();
        lemma_channel_list_members(jp, s, nm);
        let l = channel_list(jp);
        match j.last() {
            Some(name) => {
                let top = (j.len() as i64, name);
                let lp = l.push(top);
                if l.contains((s, nm)) {
                    let k = choose|k: int| 0 <= k < l.len() && l[k] == (s, nm);
                    assert(lp[k] == (s, nm));
                }
                if (s, nm) == top {
                    assert(lp[l.len() as int] == (s, nm));
                }
                if lp.contains((s, nm)) {
                    let k = choose|k: int| 0 <= k < lp.len() && lp[k] == (s, nm);
                    if k < l.len() {
                        assert(l[k] == (s, nm));
                    }
                }
            },
            None => {},
        }
    }
}

/// The slot law: `GetChannelName` and `GetChannelList` number the channels alike. Every pair
/// the list gives is what the name lookup answers for that number, and a number the lookup
/// answers for is in the list with the same name. (A list longer than `i64::MAX` is left out:
/// its numbers do not fit the script's integers.)
pub proof fn lemma_name_and_list_agree(j: Seq<Option<Seq<char>>>, n: i64, nm: Seq<char>)
    requires
        j.len() <= i64::MAX,
    ensures
        channel_list(j).contains((n, nm)) ==> channel_name_answer(j, ChannelKey::Index(n)) == (n, Some(nm), 0i64),
        channel_name_answer(j, ChannelKey::Index(n)) == (n, Some(nm), 0i64) && n != 0 ==> channel_list(j).contains((n, nm)),
{
    lemma_channel_list_members(j, n, nm);
}

/// A slot found in a prefix of the joined list is the slot of the whole list.
proof fn lemma_slot_of_prefix(j: Seq<Option<Seq<char>>>, name: Seq<char>, k: int)
    requires
        0 <= k <= j.len(),
        slot_of(j.subrange(0, k), name) != 0,
    ensures
        slot_of(j, name) == slot_of(j.subrange(0, k), name),
    decreases j.len() - k,
{
    if k < j.len() {
        assert(j.subrange(0, k + 1).drop_last() =~= j.subrange(0, k));
        lemma_slot_of_prefix(j, name, k + 1);
    } else {
        assert(j.subrange(0, k) =~= j);
    }
}

/// The slot `slot_of` finds is occupied, and at most the list's length.
proof fn lemma_slot_of_bounds(j: Seq<Option<Seq<char>>>, name: Seq<char>)
    ensures
        0 <= slot_of(j, name) <= j.len(),
        slot_of(j, name) != 0 ==> name_at(j, slot_of(j, name)) is Some,
    decreases j.len(),
{
    if j.len() > 0 {
        lemma_slot_of_bounds(j.drop_last(), name);
        let s = slot_of(j.drop_last(), name);
        if s != 0 {
            assert(j.drop_last()[s - 1] == j[s - 1]);
        }
    }
}

/// Whatever slot a key resolves to names an occupied slot.
proof fn lemma_slot_of_occupied(j: Seq<Option<Seq<char>>>, key: ChannelKey)
    ensures
        key_slot(j, key) != 0 ==> name_at(j, key_slot(j, key)) is Some && 1 <= key_slot(j, key) <= j.len(),
{
    if let ChannelKey::Text(s) = key {
        lemma_slot_of_bounds(j, s@);
    }
}

/// **Each one-name channel verb queues its own command.** With a name that is not blank,
/// `LeaveChannelByName` queues a leave, `ListChannelByName` a member listing,
/// `DisplayChannelOwner` an owner query, `ChannelModerate` a moderation toggle and
/// `ChannelToggleAnnouncements` an announcements toggle, each for the trimmed name and with no
/// second argument; two different verbs never queue the same command.
pub proof fn lemma_name_verbs_queue_their_own_command(
    verb: ChannelNameVerb,
    other: ChannelNameVerb,
    name: Seq<char>,
)
    requires
        trim(name).len() > 0,
    ensures
        ({
            let c = name_verb_command(verb, Some(name));
            let t = trim(name);
            let e = Seq::<char>::empty();
            &&& verb == ChannelNameVerb::Leave ==> c == Some(
                ChannelCommandView { kind: ChannelCommandKind::Leave, name: t, arg: e },
            )
            &&& verb == ChannelNameVerb::List ==> c == Some(
                ChannelCommandView { kind: ChannelCommandKind::List, name: t, arg: e },
            )
            &&& verb == ChannelNameVerb::DisplayOwner ==> c == Some(
                ChannelCommandView { kind: ChannelCommandKind::DisplayOwner, name: t, arg: e },
            )
            &&& verb == ChannelNameVerb::Moderate ==> c == Some(
                ChannelCommandView { kind: ChannelCommandKind::Moderate, name: t, arg: e },
            )
            &&& verb == ChannelNameVerb::ToggleAnnouncements ==> c == Some(
                ChannelCommandView { kind: ChannelCommandKind::ToggleAnnouncements, name: t, arg: e },
            )
            &&& verb != other ==> c != name_verb_command(other, Some(name))
        }),
{
}

/// **Each two-name channel verb queues its own command.** With a channel name that is not blank
/// and a player that is not blank, every player verb queues the command of the same name for
/// the trimmed channel and player; two different verbs never queue the same command.
pub proof fn lemma_pair_verbs_queue_their_own_command(
    verb: ChannelPairVerb,
    other: ChannelPairVerb,
    name: Seq<char>,
    player: Seq<char>,
)
    requires
        trim(name).len() > 0,
        trim(player).len() > 0,
    ensures
        ({
            let c = pair_verb_command(verb, Some(name), Some(player));
            let k = match verb {
                ChannelPairVerb::SetOwner => ChannelCommandKind::SetOwner,
                ChannelPairVerb::SetPassword => ChannelCommandKind::SetPassword,
                ChannelPairVerb::Ban => ChannelCommandKind::Ban,
                ChannelPairVerb::Invite => ChannelCommandKind::Invite,
                ChannelPairVerb::Kick => ChannelCommandKind::Kick,
                ChannelPairVerb::Moderator => ChannelCommandKind::Moderator,
                ChannelPairVerb::Unmoderator => ChannelCommandKind::Unmoderator,
                ChannelPairVerb::Mute => ChannelCommandKind::Mute,
                ChannelPairVerb::Unmute => ChannelCommandKind::Unmute,
                ChannelPairVerb::Unban => ChannelCommandKind::Unban,
            };
            &&& c == Some(ChannelCommandView { kind: k, name: trim(name), arg: trim(player) })
            &&& verb != other ==> c != pair_verb_command(other, Some(name), Some(player))
        }),
{
}

} // verus!
