//! The line a chat event reads as in the chat log: the message-type families printed verbatim,
//! the ignore and channel-list lines, the channel notices, and the speech lines with their flag
//! prefix, player link, language header, `%s`-pattern and channel prefix.

use vstd::prelude::*;
use vstd::string::*;

use crate::text::{chars_of, push_char, str_eq};

verus! {

/// What kind of chat event a line is, as far as its composition tells kinds apart.
#[derive(Clone, Copy, Debug, PartialEq, Eq, Structural)]
pub enum ChatLineKind {
    System,
    TextEmote,
    Skill,
    Loot,
    Money,
    CombatXpGain,
    CombatHonorGain,
    BgSystemNeutral,
    BgSystemAlliance,
    BgSystemHorde,
    /// Any combat-log kind: its sentence is built before it becomes an event.
    CombatLog,
    Ignored,
    ChannelList,
    ChannelNotice,
    ChannelNoticeUser,
    Say,
    Yell,
    Whisper,
    WhisperInform,
    Emote,
    Afk,
    Dnd,
    Party,
    Guild,
    Officer,
    Raid,
    RaidLeader,
    RaidWarning,
    Battleground,
    BattlegroundLeader,
    Channel,
    ChannelJoin,
    ChannelLeave,
    MonsterSay,
    MonsterYell,
    MonsterEmote,
    MonsterWhisper,
    RaidBossEmote,
    /// Any other speech kind.
    Other,
}

/// A channel notice, by what it tells.
#[derive(Clone, Copy, Debug, PartialEq, Eq, Structural)]
pub enum ChannelNotice {
    YouJoined,
    YouLeft,
    WrongPassword,
    NotMember,
    NotModerator,
    PasswordChanged,
    OwnerChanged,
    PlayerNotFound,
    NotOwner,
    ChannelOwner,
    ModeChange,
    AnnouncementsOn,
    AnnouncementsOff,
    ModerationOn,
    ModerationOff,
    Muted,
    PlayerKicked,
    Banned,
    PlayerBanned,
    PlayerUnbanned,
    PlayerNotBanned,
    PlayerAlreadyMember,
    Invite,
    InviteWrongFaction,
    WrongFaction,
    InvalidName,
    NotModerated,
    PlayerInvited,
    PlayerInviteBanned,
    Throttled,
}

/// A chat event as its line reads it: the text, the sender, the channel's display name (zone
/// tail included), the sender's flag (`AFK`, `DND`, `GM` or other), the language's name (empty
/// for none), the second name of a notice, and the notice, if the event is one the client knows.
#[derive(Clone, Debug, PartialEq, Eq)]
pub struct ChatLine {
    pub text: String,
    pub sender: String,
    pub channel: String,
    pub flag: String,
    pub language: String,
    pub target: String,
    pub notice: Option<ChannelNotice>,
}

pub struct ChatLineView {
    pub text: Seq<char>,
    pub sender: Seq<char>,
    pub channel: Seq<char>,
    pub flag: Seq<char>,
    pub language: Seq<char>,
    pub target: Seq<char>,
    pub notice: Option<ChannelNotice>,
}

impl View for ChatLine {
    type V = ChatLineView;

    open spec fn view(&self) -> ChatLineView {
        ChatLineView {
            text: self.text@,
            sender: self.sender@,
            channel: self.channel@,
            flag: self.flag@,
            language: self.language@,
            target: self.target@,
            notice: self.notice,
        }
    }
}

/// Every `%s` of `t`, left to right, replaced by `r`.
pub open spec fn pct_replaced(t: Seq<char>, r: Seq<char>) -> Seq<char>
    decreases t.len(),
{
    if t.len() == 0 {
        Seq::empty()
    } else if t.len() >= 2 && t[0] == '%' && t[1] == 's' {
        r + pct_replaced(t.subrange(2, t.len() as int), r)
    } else {
        seq![t[0]] + pct_replaced(t.drop_first(), r)
    }
}

/// A channel's display name up to its first ` - ` (its zone tail dropped).
pub open spec fn zone_stripped(c: Seq<char>) -> Seq<char>
    decreases c.len(),
{
    if c.len() < 3 {
        c
    } else if c[0] == ' ' && c[1] == '-' && c[2] == ' ' {
        Seq::empty()
    } else {
        seq![c[0]] + zone_stripped(c.drop_first())
    }
}

/// The prefix pattern of a speech kind; its `%s` is the sender.
pub open spec fn pattern_of(kind: ChatLineKind) -> Seq<char> {
    match kind {
        ChatLineKind::Say => "%s says: "@,
        ChatLineKind::Yell => "%s yells: "@,
        ChatLineKind::Whisper => "%s whispers: "@,
        ChatLineKind::WhisperInform => "To %s: "@,
        ChatLineKind::Emote => "%s "@,
        ChatLineKind::Afk => "%s is Away From Keyboard: "@,
        ChatLineKind::Dnd => "%s does not wish to be disturbed: "@,
        ChatLineKind::Party => "[Party] %s: "@,
        ChatLineKind::Guild => "[Guild] %s: "@,
        ChatLineKind::Officer => "[Officer] %s: "@,
        ChatLineKind::Raid => "[Raid] %s: "@,
        ChatLineKind::RaidLeader => "[Raid Leader] %s: "@,
        ChatLineKind::RaidWarning => "[Raid Warning] %s: "@,
        ChatLineKind::Battleground => "[Battleground] %s: "@,
        ChatLineKind::BattlegroundLeader => "[Battleground Leader] %s: "@,
        ChatLineKind::Channel => "%s: "@,
        ChatLineKind::ChannelJoin => "%s joined channel."@,
        ChatLineKind::ChannelLeave => "%s left channel."@,
        ChatLineKind::MonsterSay => "%s says: "@,
        ChatLineKind::MonsterYell => "%s yells: "@,
        ChatLineKind::MonsterWhisper => "%s whispers: "@,
        _ => "%s"@,
    }
}

/// The kinds whose text is the whole line.
pub open spec fn is_verbatim(kind: ChatLineKind) -> bool {
    match kind {
        ChatLineKind::System | ChatLineKind::TextEmote | ChatLineKind::Skill | ChatLineKind::Loot
        | ChatLineKind::Money | ChatLineKind::CombatXpGain | ChatLineKind::CombatHonorGain
        | ChatLineKind::BgSystemNeutral | ChatLineKind::BgSystemAlliance
        | ChatLineKind::BgSystemHorde | ChatLineKind::CombatLog => true,
        _ => false,
    }
}

/// The kinds a creature speaks: their sender is never a player link.
pub open spec fn is_monster(kind: ChatLineKind) -> bool {
    match kind {
        ChatLineKind::MonsterSay | ChatLineKind::MonsterYell | ChatLineKind::MonsterEmote
        | ChatLineKind::MonsterWhisper | ChatLineKind::RaidBossEmote => true,
        _ => false,
    }
}

/// The sender's flag as the line shows it.
pub open spec fn flag_prefix(flag: Seq<char>) -> Seq<char> {
    if flag == "AFK"@ {
        "<AFK>"@
    } else if flag == "DND"@ {
        "<DND>"@
    } else if flag == "GM"@ {
        "<GM>"@
    } else {
        Seq::empty()
    }
}

/// The sender as the line shows it: nothing for no sender; flag and bare name for a creature
/// or an emote; otherwise flag and a player link.
pub open spec fn sender_text(e: ChatLineView, kind: ChatLineKind) -> Seq<char> {
    if e.sender.len() == 0 {
        Seq::empty()
    } else if is_monster(kind) || kind == ChatLineKind::Emote {
        flag_prefix(e.flag) + e.sender
    } else {
        flag_prefix(e.flag) + "|Hplayer:"@ + e.sender + "|h["@ + e.sender + "]|h"@
    }
}

/// The `[Language] ` header: shown for a named language other than the default one.
pub open spec fn language_header(e: ChatLineView, default_language: Seq<char>) -> Seq<char> {
    if e.language.len() > 0 && e.language != default_language {
        "["@ + e.language + "] "@
    } else {
        Seq::empty()
    }
}

/// A speech line: the pattern with the sender, the header, the text — a creature emote's
/// text carrying its own `%s` — behind the channel's name without its zone tail.
pub open spec fn speech_line(e: ChatLineView, kind: ChatLineKind, default_language: Seq<char>) -> Seq<
    char,
> {
    let named = sender_text(e, kind);
    let header = language_header(e, default_language);
    let body = if kind == ChatLineKind::MonsterEmote || kind == ChatLineKind::RaidBossEmote {
        header + pct_replaced(e.text, named)
    } else {
        pct_replaced(pattern_of(kind), named) + header + e.text
    };
    if e.channel.len() > 0 {
        "["@ + zone_stripped(e.channel) + "] "@ + body
    } else {
        body
    }
}

/// A channel notice's line, the channel's name whole; none for a mode change or an unknown
/// notice.
pub open spec fn notice_line(e: ChatLineView) -> Option<Seq<char>> {
    let c = e.channel;
    let a = e.sender;
    let b = e.target;
    match e.notice {
        None => None,
        Some(n) => match n {
            ChannelNotice::YouJoined => Some("Joined Channel: ["@ + c + "]"@),
            ChannelNotice::YouLeft => Some("Left Channel: ["@ + c + "]"@),
            ChannelNotice::WrongPassword => Some("Wrong password for "@ + c + "."@),
            ChannelNotice::NotMember => Some("Not on channel "@ + c + "."@),
            ChannelNotice::NotModerator => Some("Not a moderator of "@ + c + "."@),
            ChannelNotice::PasswordChanged => Some(
                "["@ + c + "] Password changed by "@ + a + "."@,
            ),
            ChannelNotice::OwnerChanged => Some("["@ + c + "] Owner changed to "@ + a + "."@),
            ChannelNotice::PlayerNotFound => Some(
                "["@ + c + "] Player "@ + a + " is not on channel."@,
            ),
            ChannelNotice::NotOwner => Some("["@ + c + "] You are not the channel owner."@),
            ChannelNotice::ChannelOwner => Some("["@ + c + "] Channel owner is "@ + a + "."@),
            ChannelNotice::ModeChange => None,
            ChannelNotice::AnnouncementsOn => Some(
                "["@ + c + "] Channel announcements enabled by "@ + a + "."@,
            ),
            ChannelNotice::AnnouncementsOff => Some(
                "["@ + c + "] Channel announcements disabled by "@ + a + "."@,
            ),
            ChannelNotice::ModerationOn => Some(
                "["@ + c + "] Channel moderation enabled by "@ + a + "."@,
            ),
            ChannelNotice::ModerationOff => Some(
                "["@ + c + "] Channel moderation disabled by "@ + a + "."@,
            ),
            ChannelNotice::Muted => Some("["@ + c + "] You do not have permission to speak."@),
            ChannelNotice::PlayerKicked => Some(
                "["@ + c + "] Player "@ + a + " kicked by "@ + b + "."@,
            ),
            ChannelNotice::Banned => Some("["@ + c + "] You are banned from that channel."@),
            ChannelNotice::PlayerBanned => Some(
                "["@ + c + "] Player "@ + a + " banned by "@ + b + "."@,
            ),
            ChannelNotice::PlayerUnbanned => Some(
                "["@ + c + "] Player "@ + a + " unbanned by "@ + b + "."@,
            ),
            ChannelNotice::PlayerNotBanned => Some(
                "["@ + c + "] Player "@ + a + " is not banned."@,
            ),
            ChannelNotice::PlayerAlreadyMember => Some(
                "["@ + c + "] Player "@ + a + " is already on the channel."@,
            ),
            ChannelNotice::Invite => Some(
                a + " has invited you to join the channel '"@ + c + "'."@,
            ),
            ChannelNotice::InviteWrongFaction => Some(
                "Target is in the wrong alliance for "@ + c + "."@,
            ),
            ChannelNotice::WrongFaction => Some("Wrong alliance for "@ + c + "."@),
            ChannelNotice::InvalidName => Some("Invalid channel name"@),
            ChannelNotice::NotModerated => Some(c + " is not moderated"@),
            ChannelNotice::PlayerInvited => Some(
                "["@ + c + "] You invited "@ + a + " to join the channel"@,
            ),
            ChannelNotice::PlayerInviteBanned => Some("["@ + c + "] "@ + a + " has been banned."@),
            ChannelNotice::Throttled => Some(
                "["@ + c
                    + "] The number of messages that can be sent to this channel is limited, please wait to send another message."@,
            ),
        },
    }
}

/// The line an event of `kind` reads as, with `default_language` the player's own tongue; none
/// for a notice that prints nothing.
pub open spec fn composed(e: ChatLineView, kind: ChatLineKind, default_language: Seq<char>) -> Option<
    Seq<char>,
> {
    if is_verbatim(kind) {
        Some(e.text)
    } else {
        match kind {
            ChatLineKind::Ignored => Some(e.sender + " is ignoring you."@),
            ChatLineKind::ChannelList => Some("["@ + e.channel + "] "@ + e.text),
            ChatLineKind::ChannelNotice | ChatLineKind::ChannelNoticeUser => notice_line(e),
            _ => Some(speech_line(e, kind, default_language)),
        }
    }
}

pub open spec fn opt_text(o: Option<String>) -> Option<Seq<char>> {
    match o {
        Some(s) => Some(s@),
        None => None,
    }
}

fn cat2(a: &str, b: &str) -> (r: String)
    ensures
        r@ == a@ + b@,
{
    let mut r = String::from_str(a);
    r.append(b);
    r
}

fn cat3(a: &str, b: &str, c: &str) -> (r: String)
    ensures
        r@ == a@ + b@ + c@,
{
    let mut r = String::from_str(a);
    r.append(b);
    r.append(c);
    r
}

fn cat4(a: &str, b: &str, c: &str, d: &str) -> (r: String)
    ensures
        r@ == a@ + b@ + c@ + d@,
{
    let mut r = String::from_str(a);
    r.append(b);
    r.append(c);
    r.append(d);
    r
}

fn cat5(a: &str, b: &str, c: &str, d: &str, e: &str) -> (r: String)
    ensures
        r@ == a@ + b@ + c@ + d@ + e@,
{
    let mut r = String::from_str(a);
    r.append(b);
    r.append(c);
    r.append(d);
    r.append(e);
    r
}

/// Every `%s` of `t` replaced by `r`.
pub fn replace_pct(t: &str, r: &str) -> (out: String)
    ensures
        out@ == pct_replaced(t@, r@),
{
    let chars = chars_of(t);
    let n = chars.len();
    let mut out = String::new();
    let mut i: usize = 0;
    assert(t@.subrange(0, n as int) =~= t@);
    assert(out@ + pct_replaced(t@, r@) =~= pct_replaced(t@, r@));
    while i < n
        invariant
            n == chars@.len(),
            chars@ == t@,
            i <= n,
            pct_replaced(t@, r@) == out@ + pct_replaced(t@.subrange(i as int, n as int), r@),
        decreases n - i,
    {
        let ghost rest = t@.subrange(i as int, n as int);
        if i + 1 < n && chars[i] == '%' && chars[i + 1] == 's' {
            assert(rest.subrange(2, rest.len() as int) =~= t@.subrange(i + 2, n as int));
            out.append(r);
            i = i + 2;
        } else {
            assert(rest.drop_first() =~= t@.subrange(i + 1, n as int));
            push_char(&mut out, chars[i]);
            i = i + 1;
        }
    }
    assert(t@.subrange(n as int, n as int) =~= Seq::<char>::empty());
    out
}

/// A channel's display name without its zone tail.
pub fn strip_zone(c: &str) -> (out: String)
    ensures
        out@ == zone_stripped(c@),
{
    let chars = chars_of(c);
    let n = chars.len();
    let mut out = String::new();
    let mut i: usize = 0;
    assert(c@.subrange(0, n as int) =~= c@);
    assert(out@ + zone_stripped(c@) =~= zone_stripped(c@));
    while i < n
        invariant
            n == chars@.len(),
            chars@ == c@,
            i <= n,
            zone_stripped(c@) == out@ + zone_stripped(c@.subrange(i as int, n as int)),
        decreases n - i,
    {
        let ghost rest = c@.subrange(i as int, n as int);
        if n - i < 3 {
            proof {
                assert(zone_stripped(rest) == rest);
            }
            let mut j: usize = i;
            while j < n
                invariant
                    i <= j <= n == chars@.len(),
                    chars@ == c@,
                    zone_stripped(c@) == out@ + c@.subrange(j as int, n as int),
                decreases n - j,
            {
                let ghost before = out@;
                push_char(&mut out, chars[j]);
                assert(before + c@.subrange(j as int, n as int) =~= out@ + c@.subrange(
                    j + 1,
                    n as int,
                ));
                j = j + 1;
            }
            assert(c@.subrange(n as int, n as int) =~= Seq::<char>::empty());
            assert(out@ =~= zone_stripped(c@));
            return out;
        }
        if chars[i] == ' ' && chars[i + 1] == '-' && chars[i + 2] == ' ' {
            assert(out@ =~= zone_stripped(c@));
            return out;
        }
        assert(rest.drop_first() =~= c@.subrange(i + 1, n as int));
        let ghost before = out@;
        push_char(&mut out, chars[i]);
        assert(before + (seq![rest[0]] + zone_stripped(rest.drop_first())) =~= out@
            + zone_stripped(rest.drop_first()));
        i = i + 1;
    }
    assert(c@.subrange(n as int, n as int) =~= Seq::<char>::empty());
    assert(out@ =~= zone_stripped(c@));
    out
}

/// The prefix pattern of a speech kind.
pub fn get_pattern(kind: ChatLineKind) -> (p: &'static str)
    ensures
        p@ == pattern_of(kind),
{
    match kind {
        ChatLineKind::Say => "%s says: ",
        ChatLineKind::Yell => "%s yells: ",
        ChatLineKind::Whisper => "%s whispers: ",
        ChatLineKind::WhisperInform => "To %s: ",
        ChatLineKind::Emote => "%s ",
        ChatLineKind::Afk => "%s is Away From Keyboard: ",
        ChatLineKind::Dnd => "%s does not wish to be disturbed: ",
        ChatLineKind::Party => "[Party] %s: ",
        ChatLineKind::Guild => "[Guild] %s: ",
        ChatLineKind::Officer => "[Officer] %s: ",
        ChatLineKind::Raid => "[Raid] %s: ",
        ChatLineKind::RaidLeader => "[Raid Leader] %s: ",
        ChatLineKind::RaidWarning => "[Raid Warning] %s: ",
        ChatLineKind::Battleground => "[Battleground] %s: ",
        ChatLineKind::BattlegroundLeader => "[Battleground Leader] %s: ",
        ChatLineKind::Channel => "%s: ",
        ChatLineKind::ChannelJoin => "%s joined channel.",
        ChatLineKind::ChannelLeave => "%s left channel.",
        ChatLineKind::MonsterSay => "%s says: ",
        ChatLineKind::MonsterYell => "%s yells: ",
        ChatLineKind::MonsterWhisper => "%s whispers: ",
        _ => "%s",
    }
}

/// A channel notice's line; `None` for a mode change or an unknown notice.
pub fn compose_notice(e: &ChatLine) -> (r: Option<String>)
    ensures
        opt_text(r) == notice_line(e@),
{
    let c = e.channel.as_str();
    let a = e.sender.as_str();
    let b = e.target.as_str();
    match e.notice {
        None => None,
        Some(n) => match n {
            ChannelNotice::YouJoined => Some(cat3("Joined Channel: [", c, "]")),
            ChannelNotice::YouLeft => Some(cat3("Left Channel: [", c, "]")),
            ChannelNotice::WrongPassword => Some(cat3("Wrong password for ", c, ".")),
            ChannelNotice::NotMember => Some(cat3("Not on channel ", c, ".")),
            ChannelNotice::NotModerator => Some(cat3("Not a moderator of ", c, ".")),
            ChannelNotice::PasswordChanged => Some(cat5("[", c, "] Password changed by ", a, ".")),
            ChannelNotice::OwnerChanged => Some(cat5("[", c, "] Owner changed to ", a, ".")),
            ChannelNotice::PlayerNotFound => Some(
                cat5("[", c, "] Player ", a, " is not on channel."),
            ),
            ChannelNotice::NotOwner => Some(cat3("[", c, "] You are not the channel owner.")),
            ChannelNotice::ChannelOwner => Some(cat5("[", c, "] Channel owner is ", a, ".")),
            ChannelNotice::ModeChange => None,
            ChannelNotice::AnnouncementsOn => Some(
                cat5("[", c, "] Channel announcements enabled by ", a, "."),
            ),
            ChannelNotice::AnnouncementsOff => Some(
                cat5("[", c, "] Channel announcements disabled by ", a, "."),
            ),
            ChannelNotice::ModerationOn => Some(
                cat5("[", c, "] Channel moderation enabled by ", a, "."),
            ),
            ChannelNotice::ModerationOff => Some(
                cat5("[", c, "] Channel moderation disabled by ", a, "."),
            ),
            ChannelNotice::Muted => Some(cat3("[", c, "] You do not have permission to speak.")),
            ChannelNotice::PlayerKicked => {
                let mut r = cat5("[", c, "] Player ", a, " kicked by ");
                r.append(b);
                r.append(".");
                Some(r)
            },
            ChannelNotice::Banned => Some(cat3("[", c, "] You are banned from that channel.")),
            ChannelNotice::PlayerBanned => {
                let mut r = cat5("[", c, "] Player ", a, " banned by ");
                r.append(b);
                r.append(".");
                Some(r)
            },
            ChannelNotice::PlayerUnbanned => {
                let mut r = cat5("[", c, "] Player ", a, " unbanned by ");
                r.append(b);
                r.append(".");
                Some(r)
            },
            ChannelNotice::PlayerNotBanned => Some(cat5("[", c, "] Player ", a, " is not banned.")),
            ChannelNotice::PlayerAlreadyMember => Some(
                cat5("[", c, "] Player ", a, " is already on the channel."),
            ),
            ChannelNotice::Invite => Some(cat4(a, " has invited you to join the channel '", c, "'.")),
            ChannelNotice::InviteWrongFaction => Some(
                cat3("Target is in the wrong alliance for ", c, "."),
            ),
            ChannelNotice::WrongFaction => Some(cat3("Wrong alliance for ", c, ".")),
            ChannelNotice::InvalidName => Some(String::from_str("Invalid channel name")),
            ChannelNotice::NotModerated => Some(cat2(c, " is not moderated")),
            ChannelNotice::PlayerInvited => Some(
                cat5("[", c, "] You invited ", a, " to join the channel"),
            ),
            ChannelNotice::PlayerInviteBanned => {
                let mut r = cat4("[", c, "] ", a);
                r.append(" has been banned.");
                Some(r)
            },
            ChannelNotice::Throttled => Some(
                cat3(
                    "[",
                    c,
                    "] The number of messages that can be sent to this channel is limited, please wait to send another message.",
                ),
            ),
        },
    }
}

/// The sender's flag prefix.
fn flag_prefix_of(flag: &str) -> (p: &'static str)
    ensures
        p@ == flag_prefix(flag@),
{
    if str_eq(flag, "AFK") {
        "<AFK>"
    } else if str_eq(flag, "DND") {
        "<DND>"
    } else if str_eq(flag, "GM") {
        "<GM>"
    } else {
        assert(""@ =~= Seq::<char>::empty()) by {
            reveal_strlit("");
        }
        ""
    }
}

fn is_monster_kind(kind: ChatLineKind) -> (b: bool)
    ensures
        b == is_monster(kind),
{
    match kind {
        ChatLineKind::MonsterSay | ChatLineKind::MonsterYell | ChatLineKind::MonsterEmote
        | ChatLineKind::MonsterWhisper | ChatLineKind::RaidBossEmote => true,
        _ => false,
    }
}

fn is_verbatim_kind(kind: ChatLineKind) -> (b: bool)
    ensures
        b == is_verbatim(kind),
{
    match kind {
        ChatLineKind::System | ChatLineKind::TextEmote | ChatLineKind::Skill | ChatLineKind::Loot
        | ChatLineKind::Money | ChatLineKind::CombatXpGain | ChatLineKind::CombatHonorGain
        | ChatLineKind::BgSystemNeutral | ChatLineKind::BgSystemAlliance
        | ChatLineKind::BgSystemHorde | ChatLineKind::CombatLog => true,
        _ => false,
    }
}

/// The sender as a speech line shows it.
fn sender_of(e: &ChatLine, kind: ChatLineKind) -> (s: String)
    ensures
        s@ == sender_text(e@, kind),
{
    if e.sender.as_str().unicode_len() == 0 {
        return String::new();
    }
    let p = flag_prefix_of(e.flag.as_str());
    let who = e.sender.as_str();
    if is_monster_kind(kind) || kind == ChatLineKind::Emote {
        cat2(p, who)
    } else {
        let mut s = cat5(p, "|Hplayer:", who, "|h[", who);
        s.append("]|h");
        s
    }
}

/// A speech line.
fn speech(e: &ChatLine, kind: ChatLineKind, default_language: &str) -> (s: String)
    ensures
        s@ == speech_line(e@, kind, default_language@),
{
    let named = sender_of(e, kind);
    let header = if e.language.as_str().unicode_len() > 0 && !str_eq(
        e.language.as_str(),
        default_language,
    ) {
        cat3("[", e.language.as_str(), "] ")
    } else {
        String::new()
    };
    assert(header@ == language_header(e@, default_language@));
    let body = if kind == ChatLineKind::MonsterEmote || kind == ChatLineKind::RaidBossEmote {
        let replaced = replace_pct(e.text.as_str(), named.as_str());
        cat2(header.as_str(), replaced.as_str())
    } else {
        let lead = replace_pct(get_pattern(kind), named.as_str());
        cat3(lead.as_str(), header.as_str(), e.text.as_str())
    };
    if e.channel.as_str().unicode_len() > 0 {
        let stripped = strip_zone(e.channel.as_str());
        cat4("[", stripped.as_str(), "] ", body.as_str())
    } else {
        body
    }
}

/// The line an event of `kind` reads as in the chat log, `default_language` being the player's
/// own tongue; `None` for a notice that prints nothing.
pub fn compose(e: &ChatLine, kind: ChatLineKind, default_language: &str) -> (r: Option<String>)
    ensures
        opt_text(r) == composed(e@, kind, default_language@),
{
    if is_verbatim_kind(kind) {
        return Some(e.text.clone());
    }
    match kind {
        ChatLineKind::Ignored => Some(cat2(e.sender.as_str(), " is ignoring you.")),
        ChatLineKind::ChannelList => Some(
            cat4("[", e.channel.as_str(), "] ", e.text.as_str()),
        ),
        ChatLineKind::ChannelNotice | ChatLineKind::ChannelNoticeUser => compose_notice(e),
        _ => Some(speech(e, kind, default_language)),
    }
}

/// Text with no `%` in it.
pub open spec fn plain(t: Seq<char>) -> bool {
    forall|i: int| 0 <= i < t.len() ==> t[i] != '%'
}

proof fn lemma_pct_plain(t: Seq<char>, r: Seq<char>)
    requires
        plain(t),
    ensures
        pct_replaced(t, r) == t,
    decreases t.len(),
{
    if t.len() > 0 {
        assert(plain(t.drop_first()));
        lemma_pct_plain(t.drop_first(), r);
        assert(seq![t[0]] + t.drop_first() =~= t);
    }
}

proof fn lemma_pct_plain_prefix(a: Seq<char>, b: Seq<char>, r: Seq<char>)
    requires
        plain(a),
    ensures
        pct_replaced(a + b, r) == a + pct_replaced(b, r),
    decreases a.len(),
{
    if a.len() > 0 {
        let t = a + b;
        assert(t[0] == a[0]);
        assert(t.drop_first() =~= a.drop_first() + b);
        assert(plain(a.drop_first()));
        lemma_pct_plain_prefix(a.drop_first(), b, r);
        assert(seq![a[0]] + a.drop_first() =~= a);
    } else {
        assert(a + b =~= b);
    }
}

/// A pattern `pre %s post`, `pre` and `post` free of `%`, reads `pre`, the sender, `post`.
proof fn lemma_fill(pre: Seq<char>, post: Seq<char>, r: Seq<char>)
    requires
        plain(pre),
        plain(post),
    ensures
        pct_replaced(pre + "%s"@ + post, r) == pre + r + post,
{
    reveal_strlit("%s");
    let t = "%s"@ + post;
    assert(pre + "%s"@ + post =~= pre + t);
    lemma_pct_plain_prefix(pre, t, r);
    assert(t.len() >= 2 && t[0] == '%' && t[1] == 's');
    assert(t.subrange(2, t.len() as int) =~= post);
    lemma_pct_plain(post, r);
}

proof fn lemma_parts_x_says()
    ensures
        "%s says: "@ == Seq::<char>::empty() + "%s"@ + " says: "@,
        plain(Seq::<char>::empty()),
        plain(" says: "@),
{
    reveal_strlit("%s says: ");
    reveal_strlit("%s");
    reveal_strlit(" says: ");
    assert("%s says: "@ =~= Seq::<char>::empty() + "%s"@ + " says: "@);
}

proof fn lemma_parts_x_yells()
    ensures
        "%s yells: "@ == Seq::<char>::empty() + "%s"@ + " yells: "@,
        plain(Seq::<char>::empty()),
        plain(" yells: "@),
{
    reveal_strlit("%s yells: ");
    reveal_strlit("%s");
    reveal_strlit(" yells: ");
    assert("%s yells: "@ =~= Seq::<char>::empty() + "%s"@ + " yells: "@);
}

proof fn lemma_parts_x_whispers()
    ensures
        "%s whispers: "@ == Seq::<char>::empty() + "%s"@ + " whispers: "@,
        plain(Seq::<char>::empty()),
        plain(" whispers: "@),
{
    reveal_strlit("%s whispers: ");
    reveal_strlit("%s");
    reveal_strlit(" whispers: ");
    assert("%s whispers: "@ =~= Seq::<char>::empty() + "%s"@ + " whispers: "@);
}

proof fn lemma_parts_to_x()
    ensures
        "To %s: "@ == "To "@ + "%s"@ + ": "@,
        plain("To "@),
        plain(": "@),
{
    reveal_strlit("To %s: ");
    reveal_strlit("%s");
    reveal_strlit(": ");
    reveal_strlit("To ");
    assert("To %s: "@ =~= "To "@ + "%s"@ + ": "@);
}

proof fn lemma_parts_x_is_away_from_keyboard()
    ensures
        "%s is Away From Keyboard: "@ == Seq::<char>::empty() + "%s"@ + " is Away From Keyboard: "@,
        plain(Seq::<char>::empty()),
        plain(" is Away From Keyboard: "@),
{
    reveal_strlit("%s is Away From Keyboard: ");
    reveal_strlit("%s");
    reveal_strlit(" is Away From Keyboard: ");
    assert("%s is Away From Keyboard: "@ =~= Seq::<char>::empty() + "%s"@ + " is Away From Keyboard: "@);
}

proof fn lemma_parts_x_does_not_wish_to_be_disturbed()
    ensures
        "%s does not wish to be disturbed: "@ == Seq::<char>::empty() + "%s"@ + " does not wish to be disturbed: "@,
        plain(Seq::<char>::empty()),
        plain(" does not wish to be disturbed: "@),
{
    reveal_strlit("%s does not wish to be disturbed: ");
    reveal_strlit("%s");
    reveal_strlit(" does not wish to be disturbed: ");
    assert("%s does not wish to be disturbed: "@ =~= Seq::<char>::empty() + "%s"@ + " does not wish to be disturbed: "@);
}

proof fn lemma_parts_party__x()
    ensures
        "[Party] %s: "@ == "[Party] "@ + "%s"@ + ": "@,
        plain("[Party] "@),
        plain(": "@),
{
    reveal_strlit("[Party] %s: ");
    reveal_strlit("%s");
    reveal_strlit(": ");
    reveal_strlit("[Party] ");
    assert("[Party] %s: "@ =~= "[Party] "@ + "%s"@ + ": "@);
}

proof fn lemma_parts_guild__x()
    ensures
        "[Guild] %s: "@ == "[Guild] "@ + "%s"@ + ": "@,
        plain("[Guild] "@),
        plain(": "@),
{
    reveal_strlit("[Guild] %s: ");
    reveal_strlit("%s");
    reveal_strlit(": ");
    reveal_strlit("[Guild] ");
    assert("[Guild] %s: "@ =~= "[Guild] "@ + "%s"@ + ": "@);
}

proof fn lemma_parts_officer__x()
    ensures
        "[Officer] %s: "@ == "[Officer] "@ + "%s"@ + ": "@,
        plain("[Officer] "@),
        plain(": "@),
{
    reveal_strlit("[Officer] %s: ");
    reveal_strlit("%s");
    reveal_strlit(": ");
    reveal_strlit("[Officer] ");
    assert("[Officer] %s: "@ =~= "[Officer] "@ + "%s"@ + ": "@);
}

proof fn lemma_parts_raid__x()
    ensures
        "[Raid] %s: "@ == "[Raid] "@ + "%s"@ + ": "@,
        plain("[Raid] "@),
        plain(": "@),
{
    reveal_strlit("[Raid] %s: ");
    reveal_strlit("%s");
    reveal_strlit(": ");
    reveal_strlit("[Raid] ");
    assert("[Raid] %s: "@ =~= "[Raid] "@ + "%s"@ + ": "@);
}

proof fn lemma_parts_raid_leader__x()
    ensures
        "[Raid Leader] %s: "@ == "[Raid Leader] "@ + "%s"@ + ": "@,
        plain("[Raid Leader] "@),
        plain(": "@),
{
    reveal_strlit("[Raid Leader] %s: ");
    reveal_strlit("%s");
    reveal_strlit(": ");
    reveal_strlit("[Raid Leader] ");
    assert("[Raid Leader] %s: "@ =~= "[Raid Leader] "@ + "%s"@ + ": "@);
}

proof fn lemma_parts_raid_warning__x()
    ensures
        "[Raid Warning] %s: "@ == "[Raid Warning] "@ + "%s"@ + ": "@,
        plain("[Raid Warning] "@),
        plain(": "@),
{
    reveal_strlit("[Raid Warning] %s: ");
    reveal_strlit("%s");
    reveal_strlit(": ");
    reveal_strlit("[Raid Warning] ");
    assert("[Raid Warning] %s: "@ =~= "[Raid Warning] "@ + "%s"@ + ": "@);
}

proof fn lemma_parts_battleground__x()
    ensures
        "[Battleground] %s: "@ == "[Battleground] "@ + "%s"@ + ": "@,
        plain("[Battleground] "@),
        plain(": "@),
{
    reveal_strlit("[Battleground] %s: ");
    reveal_strlit("%s");
    reveal_strlit(": ");
    reveal_strlit("[Battleground] ");
    assert("[Battleground] %s: "@ =~= "[Battleground] "@ + "%s"@ + ": "@);
}

proof fn lemma_parts_battleground_leader__x()
    ensures
        "[Battleground Leader] %s: "@ == "[Battleground Leader] "@ + "%s"@ + ": "@,
        plain("[Battleground Leader] "@),
        plain(": "@),
{
    reveal_strlit("[Battleground Leader] %s: ");
    reveal_strlit("%s");
    reveal_strlit(": ");
    reveal_strlit("[Battleground Leader] ");
    assert("[Battleground Leader] %s: "@ =~= "[Battleground Leader] "@ + "%s"@ + ": "@);
}

proof fn lemma_parts_x()
    ensures
        "%s "@ == Seq::<char>::empty() + "%s"@ + " "@,
        plain(Seq::<char>::empty()),
        plain(" "@),
{
    reveal_strlit("%s ");
    reveal_strlit("%s");
    reveal_strlit(" ");
    assert("%s "@ =~= Seq::<char>::empty() + "%s"@ + " "@);
}

/// **What a chat line reads.** Said, yelled, whispered, group, away and busy lines of a
/// player — a named sender with no flag, no channel, and a language that is absent or the
/// player's own — read as the kind's own words around the sender's link, then the text:
/// "Bob says: hi", "Bob yells: hi", "To Bob: hi", "[Party] Bob: hi" and so on. A creature
/// says, yells and whispers under its bare name, and an emote follows the bare name after one
/// space.
#[verifier::spinoff_prover]
#[verifier::rlimit(60)]
pub proof fn lemma_speech_reads(e: ChatLineView, kind: ChatLineKind, lang: Seq<char>)
    requires
        e.sender.len() > 0,
        e.flag.len() == 0,
        e.channel.len() == 0,
        e.language.len() == 0 || e.language == lang,
    ensures
        ({
            let link = "|Hplayer:"@ + e.sender + "|h["@ + e.sender + "]|h"@;
            let bare = e.sender;
            let t = e.text;
            let c = composed(e, kind, lang);
            &&& kind == ChatLineKind::Say ==> c == Some(link + " says: "@ + t)
            &&& kind == ChatLineKind::Yell ==> c == Some(link + " yells: "@ + t)
            &&& kind == ChatLineKind::Whisper ==> c == Some(link + " whispers: "@ + t)
            &&& kind == ChatLineKind::WhisperInform ==> c == Some("To "@ + link + ": "@ + t)
            &&& kind == ChatLineKind::Afk ==> c == Some(link + " is Away From Keyboard: "@ + t)
            &&& kind == ChatLineKind::Dnd ==> c == Some(link + " does not wish to be disturbed: "@ + t)
            &&& kind == ChatLineKind::Party ==> c == Some("[Party] "@ + link + ": "@ + t)
            &&& kind == ChatLineKind::Guild ==> c == Some("[Guild] "@ + link + ": "@ + t)
            &&& kind == ChatLineKind::Officer ==> c == Some("[Officer] "@ + link + ": "@ + t)
            &&& kind == ChatLineKind::Raid ==> c == Some("[Raid] "@ + link + ": "@ + t)
            &&& kind == ChatLineKind::RaidLeader ==> c == Some("[Raid Leader] "@ + link + ": "@ + t)
            &&& kind == ChatLineKind::RaidWarning ==> c == Some("[Raid Warning] "@ + link + ": "@ + t)
            &&& kind == ChatLineKind::Battleground ==> c == Some("[Battleground] "@ + link + ": "@ + t)
            &&& kind == ChatLineKind::BattlegroundLeader ==> c == Some("[Battleground Leader] "@ + link + ": "@ + t)
            &&& kind == ChatLineKind::MonsterSay ==> c == Some(bare + " says: "@ + t)
            &&& kind == ChatLineKind::MonsterYell ==> c == Some(bare + " yells: "@ + t)
            &&& kind == ChatLineKind::MonsterWhisper ==> c == Some(bare + " whispers: "@ + t)
            &&& kind == ChatLineKind::Emote ==> c == Some(bare + " "@ + t)
        }),
{
    reveal_strlit("AFK");
    reveal_strlit("DND");
    reveal_strlit("GM");
    assert(flag_prefix(e.flag) =~= Seq::<char>::empty());
    assert(language_header(e, lang) =~= Seq::<char>::empty());
    let link = "|Hplayer:"@ + e.sender + "|h["@ + e.sender + "]|h"@;
    let named = sender_text(e, kind);
    match kind {
        ChatLineKind::Say => {
            lemma_parts_x_says();
            lemma_fill(Seq::<char>::empty(), " says: "@, named);
            assert(named =~= link);
        },
        ChatLineKind::Yell => {
            lemma_parts_x_yells();
            lemma_fill(Seq::<char>::empty(), " yells: "@, named);
            assert(named =~= link);
        },
        ChatLineKind::Whisper => {
            lemma_parts_x_whispers();
            lemma_fill(Seq::<char>::empty(), " whispers: "@, named);
            assert(named =~= link);
        },
        ChatLineKind::WhisperInform => {
            lemma_parts_to_x();
            lemma_fill("To "@, ": "@, named);
            assert(named =~= link);
        },
        ChatLineKind::Afk => {
            lemma_parts_x_is_away_from_keyboard();
            lemma_fill(Seq::<char>::empty(), " is Away From Keyboard: "@, named);
            assert(named =~= link);
        },
        ChatLineKind::Dnd => {
            lemma_parts_x_does_not_wish_to_be_disturbed();
            lemma_fill(Seq::<char>::empty(), " does not wish to be disturbed: "@, named);
            assert(named =~= link);
        },
        ChatLineKind::Party => {
            lemma_parts_party__x();
            lemma_fill("[Party] "@, ": "@, named);
            assert(named =~= link);
        },
        ChatLineKind::Guild => {
            lemma_parts_guild__x();
            lemma_fill("[Guild] "@, ": "@, named);
            assert(named =~= link);
        },
        ChatLineKind::Officer => {
            lemma_parts_officer__x();
            lemma_fill("[Officer] "@, ": "@, named);
            assert(named =~= link);
        },
        ChatLineKind::Raid => {
            lemma_parts_raid__x();
            lemma_fill("[Raid] "@, ": "@, named);
            assert(named =~= link);
        },
        ChatLineKind::RaidLeader => {
            lemma_parts_raid_leader__x();
            lemma_fill("[Raid Leader] "@, ": "@, named);
            assert(named =~= link);
        },
        ChatLineKind::RaidWarning => {
            lemma_parts_raid_warning__x();
            lemma_fill("[Raid Warning] "@, ": "@, named);
            assert(named =~= link);
        },
        ChatLineKind::Battleground => {
            lemma_parts_battleground__x();
            lemma_fill("[Battleground] "@, ": "@, named);
            assert(named =~= link);
        },
        ChatLineKind::BattlegroundLeader => {
            lemma_parts_battleground_leader__x();
            lemma_fill("[Battleground Leader] "@, ": "@, named);
            assert(named =~= link);
        },
        ChatLineKind::MonsterSay => {
            lemma_parts_x_says();
            lemma_fill(Seq::<char>::empty(), " says: "@, named);
            assert(named =~= e.sender);
        },
        ChatLineKind::MonsterYell => {
            lemma_parts_x_yells();
            lemma_fill(Seq::<char>::empty(), " yells: "@, named);
            assert(named =~= e.sender);
        },
        ChatLineKind::MonsterWhisper => {
            lemma_parts_x_whispers();
            lemma_fill(Seq::<char>::empty(), " whispers: "@, named);
            assert(named =~= e.sender);
        },
        ChatLineKind::Emote => {
            lemma_parts_x();
            lemma_fill(Seq::<char>::empty(), " "@, named);
            assert(named =~= e.sender);
        },
        _ => {},
    }
}

} // verus!
