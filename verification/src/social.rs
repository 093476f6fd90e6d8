//! The social verbs — friends, ignores, `/who` and the looking-for-group flag. The app pushes a
//! display-ready [`SocialState`] snapshot ([`UiScript::set_social`]) and the getters read it;
//! every verb that wants the server queues a [`SocialRequest`] the app drains
//! ([`UiScript::take_social_requests`]). Selection lives here, not in the script: selecting a
//! friend changes the snapshot at once (the same tick reads it back) *and* queues the intent.

use vstd::prelude::*;
use vstd::string::*;

use crate::script::UiScript;
use crate::text::{trim, trimmed};

verus! {

/// One friend row, resolved for display — `GetFriendInfo`'s six returns in field order.
#[derive(Clone, Debug, Default, PartialEq, Eq)]
pub struct FriendInfo {
    /// The character's name; empty while its name lookup is in flight.
    pub name: String,
    /// Level, `0` when offline.
    pub level: u32,
    /// Class name, empty when offline.
    pub class: String,
    /// Zone name, empty when offline or unknown.
    pub area: String,
    /// Online at all.
    pub connected: bool,
    /// The away tag: `""`, `"<AFK>"` or `"<DND>"`.
    pub status: String,
}

/// One `/who` row — `GetWhoInfo`'s six returns in order (race before class).
#[derive(Clone, Debug, Default, PartialEq, Eq)]
pub struct WhoInfo {
    pub name: String,
    pub guild: String,
    pub level: u32,
    pub race: String,
    pub class: String,
    pub zone: String,
}

/// The social snapshot, pushed whole by the app whenever it changes. `default()` is the
/// fresh-login shape: no friends, no ignores, no `/who` run yet.
#[derive(Clone, Debug, Default, PartialEq, Eq)]
pub struct SocialState {
    /// The friend list, in display order.
    pub friends: Vec<FriendInfo>,
    /// The selected friend as a **1-based** index, `0` = none.
    pub selected_friend: u32,
    /// The ignore list: names only.
    pub ignores: Vec<String>,
    /// The selected ignore, same 1-based scale.
    pub selected_ignore: u32,
    /// The last `/who` answer's rows.
    pub who: Vec<WhoInfo>,
    /// The last `/who` answer's total match count, which can exceed `who.len()`.
    pub who_total: u32,
}

impl SocialState {
    /// No friends, no ignores, nothing selected, no `/who` answer.
    pub open spec fn is_fresh(&self) -> bool {
        &&& self.friends@.len() == 0
        &&& self.selected_friend == 0
        &&& self.ignores@.len() == 0
        &&& self.selected_ignore == 0
        &&& self.who@.len() == 0
        &&& self.who_total == 0
    }

    /// The fresh-login snapshot.
    pub fn fresh() -> (s: Self)
        ensures
            s.is_fresh(),
    {
        SocialState {
            friends: Vec::new(),
            selected_friend: 0,
            ignores: Vec::new(),
            selected_ignore: 0,
            who: Vec::new(),
            who_total: 0,
        }
    }
}

/// Outbound social intents queued by the verbs and drained by the app.
#[derive(Clone, Debug, PartialEq, Eq)]
pub enum SocialRequest {
    /// `ShowFriends()` — refresh the list.
    RefreshFriends,
    /// `AddFriend(name)`.
    AddFriend(String),
    /// `RemoveFriend(index)` — the friends frame's button, which addresses the *row*.
    RemoveFriendIndex(u32),
    /// `RemoveFriend(name)` — the slash command, which addresses a name.
    RemoveFriendName(String),
    /// `AddIgnore(name)`.
    AddIgnore(String),
    /// `DelIgnore(name)`.
    DelIgnore(String),
    /// `AddOrDelIgnore(name)` — the toggle; the app decides which, as only it holds the list.
    ToggleIgnore(String),
    /// `SetSelectedFriend(index)` — mirrored into the app so its next push agrees.
    SelectFriend(u32),
    /// `SetSelectedIgnore(index)`.
    SelectIgnore(u32),
    /// `SendWho(filter)` — the raw filter as typed.
    Who(String),
    /// `SortWho(sortType)`.
    SortWho(String),
    /// `SetWhoToUI(flag)` — where the next `/who` answer goes: the Who frame, or chat.
    SetWhoToUi(bool),
}

/// A request as a value.
pub enum SocialRequestView {
    RefreshFriends,
    AddFriend(Seq<char>),
    RemoveFriendIndex(u32),
    RemoveFriendName(Seq<char>),
    AddIgnore(Seq<char>),
    DelIgnore(Seq<char>),
    ToggleIgnore(Seq<char>),
    SelectFriend(u32),
    SelectIgnore(u32),
    Who(Seq<char>),
    SortWho(Seq<char>),
    SetWhoToUi(bool),
}

impl View for SocialRequest {
    type V = SocialRequestView;

    open spec fn view(&self) -> SocialRequestView {
        match self {
            SocialRequest::RefreshFriends => SocialRequestView::RefreshFriends,
            SocialRequest::AddFriend(s) => SocialRequestView::AddFriend(s@),
            SocialRequest::RemoveFriendIndex(i) => SocialRequestView::RemoveFriendIndex(*i),
            SocialRequest::RemoveFriendName(s) => SocialRequestView::RemoveFriendName(s@),
            SocialRequest::AddIgnore(s) => SocialRequestView::AddIgnore(s@),
            SocialRequest::DelIgnore(s) => SocialRequestView::DelIgnore(s@),
            SocialRequest::ToggleIgnore(s) => SocialRequestView::ToggleIgnore(s@),
            SocialRequest::SelectFriend(i) => SocialRequestView::SelectFriend(*i),
            SocialRequest::SelectIgnore(i) => SocialRequestView::SelectIgnore(*i),
            SocialRequest::Who(s) => SocialRequestView::Who(s@),
            SocialRequest::SortWho(s) => SocialRequestView::SortWho(s@),
            SocialRequest::SetWhoToUi(b) => SocialRequestView::SetWhoToUi(*b),
        }
    }
}

/// The three ignore-list verbs that take a name.
#[derive(Clone, Copy, Debug, PartialEq, Eq)]
pub enum IgnoreVerb {
    /// `AddIgnore`.
    Add,
    /// `DelIgnore`.
    Del,
    /// `AddOrDelIgnore`.
    Toggle,
}

/// `RemoveFriend`'s argument, as the script passed it.
#[derive(Clone, Debug, PartialEq, Eq)]
pub enum FriendKey {
    /// A row number (the app passes a float of at least one as its integer part).
    Index(i64),
    /// A character name.
    Name(String),
    /// Anything else.
    Other,
}

/// A selection index clamped to `0..=len`: a row in range is itself, anything else selects
/// nothing.
pub open spec fn clamp_index(index: i64, len: int) -> u32 {
    if index >= 1 && index <= len {
        index as u32
    } else {
        0
    }
}

/// The 1-based row `index` of `rows`, if there is one.
pub open spec fn row_at<T>(rows: Seq<T>, index: i64) -> Option<T> {
    if 1 <= index <= rows.len() {
        Some(rows[index - 1])
    } else {
        None
    }
}

pub open spec fn ignore_request(verb: IgnoreVerb, name: Seq<char>) -> SocialRequestView {
    match verb {
        IgnoreVerb::Add => SocialRequestView::AddIgnore(name),
        IgnoreVerb::Del => SocialRequestView::DelIgnore(name),
        IgnoreVerb::Toggle => SocialRequestView::ToggleIgnore(name),
    }
}

/// What `RemoveFriend` queues: a row number of at least one, or a non-blank name (as given).
pub open spec fn remove_friend_request(who: FriendKey) -> Option<SocialRequestView> {
    match who {
        FriendKey::Index(i) => if i >= 1 {
            Some(SocialRequestView::RemoveFriendIndex(i as u32))
        } else {
            None
        },
        FriendKey::Name(s) => if trim(s@).len() > 0 {
            Some(SocialRequestView::RemoveFriendName(s@))
        } else {
            None
        },
        FriendKey::Other => None,
    }
}

/// A request queue with `r` appended when there is one.
pub open spec fn requests_after(q: Seq<SocialRequestView>, r: Option<SocialRequestView>) -> Seq<SocialRequestView> {
    match r {
        Some(r) => q.push(r),
        None => q,
    }
}

/// Whether `name` has anything but whitespace in it.
fn is_blank(name: &str) -> (b: bool)
    ensures
        b == (trim(name@).len() == 0),
{
    trimmed(name).as_str().unicode_len() == 0
}

impl UiScript {
    /// The queued social requests as values, oldest first.
    pub open spec fn requests_view(&self) -> Seq<SocialRequestView> {
        self.social_requests@.map_values(|r: SocialRequest| r@)
    }

    /// The channel half of the model is as in `other`.
    pub open spec fn channels_unchanged(&self, other: &UiScript) -> bool {
        &&& self.zone_channel_catalog@ == other.zone_channel_catalog@
        &&& self.channel_commands@ == other.channel_commands@
        &&& self.joined_channels@ == other.joined_channels@
    }

    /// Only the request queue moved, by `r` when there is one.
    pub open spec fn queued_only(&self, old: &UiScript, r: Option<SocialRequestView>) -> bool {
        &&& self.requests_view() == requests_after(old.requests_view(), r)
        &&& self.social == old.social
        &&& self.looking_for_group == old.looking_for_group
        &&& self.channels_unchanged(old)
    }

    fn push_request(&mut self, r: SocialRequest)
        ensures
            final(self).queued_only(old(self), Some(r@)),
    {
        self.social_requests.push(r);
        assert(self.requests_view() =~= old(self).requests_view().push(r@));
    }

    /// Push the social snapshot, replacing whatever was there.
    pub fn set_social(&mut self, state: SocialState)
        ensures
            final(self).social == state,
            final(self).social_requests@ == old(self).social_requests@,
            final(self).looking_for_group == old(self).looking_for_group,
            final(self).channels_unchanged(old(self)),
    {
        self.social = state;
    }

    /// Drain the social intents queued since the last call, oldest first.
    pub fn take_social_requests(&mut self) -> (reqs: Vec<SocialRequest>)
        ensures
            reqs@ == old(self).social_requests@,
            final(self).social_requests@.len() == 0,
            final(self).social == old(self).social,
            final(self).looking_for_group == old(self).looking_for_group,
            final(self).channels_unchanged(old(self)),
    {
        let mut reqs: Vec<SocialRequest> = Vec::new();
        std::mem::swap(&mut reqs, &mut self.social_requests);
        reqs
    }

    /// Queue an intent from the app side — the slash commands enter the same queue.
    pub fn queue_social_request(&mut self, request: SocialRequest)
        ensures
            final(self).queued_only(old(self), Some(request@)),
    {
        self.push_request(request);
    }

    /// `GetNumFriends()`.
    pub fn get_num_friends(&self) -> (n: usize)
        ensures
            n == self.social.friends@.len(),
    {
        self.social.friends.len()
    }

    /// `GetFriendInfo(index)`: the 1-based row, or nothing past either end.
    pub fn get_friend_info(&self, index: i64) -> (f: Option<&FriendInfo>)
        ensures
            match f {
                Some(f) => row_at(self.social.friends@, index) == Some(*f),
                None => row_at(self.social.friends@, index) is None,
            },
    {
        let len = self.social.friends.len();
        if index >= 1 && (index as u64) <= (len as u64) {
            Some(&self.social.friends[(index - 1) as usize])
        } else {
            None
        }
    }

    /// `GetSelectedFriend()` → the 1-based selected row, 0 when nothing is selected.
    pub fn get_selected_friend(&self) -> (i: u32)
        ensures
            i == self.social.selected_friend,
    {
        self.social.selected_friend
    }

    /// `SetSelectedFriend(index)`: select the row now (clamped — a row past the end selects
    /// nothing) and queue the intent with the same clamped index.
    pub fn set_selected_friend(&mut self, index: i64)
        ensures
            ({
                let i = clamp_index(index, old(self).social.friends@.len() as int);
                &&& final(self).social.selected_friend == i
                &&& final(self).social.friends@ == old(self).social.friends@
                &&& final(self).social.ignores@ == old(self).social.ignores@
                &&& final(self).social.selected_ignore == old(self).social.selected_ignore
                &&& final(self).social.who@ == old(self).social.who@
                &&& final(self).social.who_total == old(self).social.who_total
                &&& final(self).requests_view() == old(self).requests_view().push(SocialRequestView::SelectFriend(i))
            }),
            final(self).looking_for_group == old(self).looking_for_group,
            final(self).channels_unchanged(old(self)),
    {
        let i = clamp(index, self.social.friends.len());
        self.social.selected_friend = i;
        self.social_requests.push(SocialRequest::SelectFriend(i));
        assert(self.requests_view() =~= old(self).requests_view().push(SocialRequestView::SelectFriend(i)));
    }

    /// `GetLookingForGroup()` → four values: the flag first (1, or nil when off), then three
    /// that are always nil.
    pub fn get_looking_for_group(&self) -> (v: [Option<i64>; 4])
        ensures
            v@ == seq![if self.looking_for_group { Some(1i64) } else { None }, None, None, None],
    {
        let flag = if self.looking_for_group { Some(1i64) } else { None };
        let v = [flag, None, None, None];
        assert(v@ =~= seq![flag, None, None, None]);
        v
    }

    /// `SetLookingForGroup(flag)`: writes the flag and queues nothing.
    pub fn set_looking_for_group(&mut self, on: bool)
        ensures
            final(self).looking_for_group == on,
            final(self).social == old(self).social,
            final(self).social_requests@ == old(self).social_requests@,
            final(self).channels_unchanged(old(self)),
    {
        self.looking_for_group = on;
    }

    /// `ShowFriends()` — ask the server for the list again.
    pub fn show_friends(&mut self)
        ensures
            final(self).queued_only(old(self), Some(SocialRequestView::RefreshFriends)),
    {
        self.push_request(SocialRequest::RefreshFriends);
    }

    /// `AddFriend(name)` — a blank name is dropped rather than sent; otherwise the name goes as
    /// given.
    pub fn add_friend(&mut self, name: String)
        ensures
            final(self).queued_only(
                old(self),
                if trim(name@).len() > 0 {
                    Some(SocialRequestView::AddFriend(name@))
                } else {
                    None
                },
            ),
    {
        if !is_blank(name.as_str()) {
            self.push_request(SocialRequest::AddFriend(name));
        } else {
            assert(self.requests_view() =~= old(self).requests_view());
        }
    }

    /// `RemoveFriend(indexOrName)`: a row number from the frame's button, a name from the slash
    /// command.
    pub fn remove_friend(&mut self, who: FriendKey)
        ensures
            final(self).queued_only(old(self), remove_friend_request(who)),
    {
        let ghost w = who;
        match who {
            FriendKey::Index(i) => {
                if i >= 1 {
                    self.push_request(SocialRequest::RemoveFriendIndex(i as u32));
                }
            },
            FriendKey::Name(name) => {
                if !is_blank(name.as_str()) {
                    self.push_request(SocialRequest::RemoveFriendName(name));
                }
            },
            FriendKey::Other => {},
        }
        assert(remove_friend_request(w) is None ==> self.requests_view() =~= old(self).requests_view());
    }

    /// `GetNumIgnores()`.
    pub fn get_num_ignores(&self) -> (n: usize)
        ensures
            n == self.social.ignores@.len(),
    {
        self.social.ignores.len()
    }

    /// `GetIgnoreName(index)` → the name, or nothing past either end.
    pub fn get_ignore_name(&self, index: i64) -> (s: Option<&String>)
        ensures
            match s {
                Some(s) => row_at(self.social.ignores@, index) == Some(*s),
                None => row_at(self.social.ignores@, index) is None,
            },
    {
        let len = self.social.ignores.len();
        if index >= 1 && (index as u64) <= (len as u64) {
            Some(&self.social.ignores[(index - 1) as usize])
        } else {
            None
        }
    }

    /// `GetSelectedIgnore()`.
    pub fn get_selected_ignore(&self) -> (i: u32)
        ensures
            i == self.social.selected_ignore,
    {
        self.social.selected_ignore
    }

    /// `SetSelectedIgnore(index)` — the friend selection's twin, over the ignore list.
    pub fn set_selected_ignore(&mut self, index: i64)
        ensures
            ({
                let i = clamp_index(index, old(self).social.ignores@.len() as int);
                &&& final(self).social.selected_ignore == i
                &&& final(self).social.friends@ == old(self).social.friends@
                &&& final(self).social.selected_friend == old(self).social.selected_friend
                &&& final(self).social.ignores@ == old(self).social.ignores@
                &&& final(self).social.who@ == old(self).social.who@
                &&& final(self).social.who_total == old(self).social.who_total
                &&& final(self).requests_view() == old(self).requests_view().push(SocialRequestView::SelectIgnore(i))
            }),
            final(self).looking_for_group == old(self).looking_for_group,
            final(self).channels_unchanged(old(self)),
    {
        let i = clamp(index, self.social.ignores.len());
        self.social.selected_ignore = i;
        self.social_requests.push(SocialRequest::SelectIgnore(i));
        assert(self.requests_view() =~= old(self).requests_view().push(SocialRequestView::SelectIgnore(i)));
    }

    /// `AddIgnore` / `DelIgnore` / `AddOrDelIgnore(name)`: a blank name queues nothing;
    /// otherwise the name goes as given.
    pub fn ignore_verb(&mut self, verb: IgnoreVerb, name: String)
        ensures
            final(self).queued_only(
                old(self),
                if trim(name@).len() > 0 {
                    Some(ignore_request(verb, name@))
                } else {
                    None
                },
            ),
    {
        if !is_blank(name.as_str()) {
            let r = match verb {
                IgnoreVerb::Add => SocialRequest::AddIgnore(name),
                IgnoreVerb::Del => SocialRequest::DelIgnore(name),
                IgnoreVerb::Toggle => SocialRequest::ToggleIgnore(name),
            };
            self.push_request(r);
        } else {
            assert(self.requests_view() =~= old(self).requests_view());
        }
    }

    /// `GetNumWhoResults()` → displayed, total.
    pub fn get_num_who_results(&self) -> (r: (usize, u32))
        ensures
            r == (self.social.who@.len() as usize, self.social.who_total),
    {
        (self.social.who.len(), self.social.who_total)
    }

    /// `GetWhoInfo(index)` → the 1-based row, or nothing past either end.
    pub fn get_who_info(&self, index: i64) -> (w: Option<&WhoInfo>)
        ensures
            match w {
                Some(w) => row_at(self.social.who@, index) == Some(*w),
                None => row_at(self.social.who@, index) is None,
            },
    {
        let len = self.social.who.len();
        if index >= 1 && (index as u64) <= (len as u64) {
            Some(&self.social.who[(index - 1) as usize])
        } else {
            None
        }
    }

    /// `SendWho(filter)` — the filter as typed (none is the empty filter).
    pub fn send_who(&mut self, filter: Option<String>)
        ensures
            final(self).queued_only(
                old(self),
                Some(SocialRequestView::Who(match filter {
                    Some(f) => f@,
                    None => Seq::empty(),
                })),
            ),
    {
        let f = match filter {
            Some(f) => f,
            None => String::new(),
        };
        self.push_request(SocialRequest::Who(f));
    }

    /// `SortWho(sortType)`.
    pub fn sort_who(&mut self, sort_type: String)
        ensures
            final(self).queued_only(old(self), Some(SocialRequestView::SortWho(sort_type@))),
    {
        self.push_request(SocialRequest::SortWho(sort_type));
    }

    /// `SetWhoToUI(flag)` — where the next `/who` answer goes.
    pub fn set_who_to_ui(&mut self, on: bool)
        ensures
            final(self).queued_only(old(self), Some(SocialRequestView::SetWhoToUi(on))),
    {
        self.push_request(SocialRequest::SetWhoToUi(on));
    }
}

/// Clamp a selection index to `0..=len`.
pub fn clamp(index: i64, len: usize) -> (i: u32)
    ensures
        i == clamp_index(index, len as int),
{
    if index >= 1 && (index as u64) <= (len as u64) {
        index as u32
    } else {
        0
    }
}

/// **Each ignore verb queues its own request.** With a non-blank name, `AddIgnore` queues an
/// add, `DelIgnore` a removal and `AddOrDelIgnore` a toggle, each for the name as given; the
/// three verbs never queue the same request, and none of them touches the friends list.
pub proof fn lemma_ignore_verbs_queue_their_own_request(verb: IgnoreVerb, other: IgnoreVerb, name: String)
    ensures
        verb == IgnoreVerb::Add ==> ignore_request(verb, name@) == SocialRequest::AddIgnore(name)@,
        verb == IgnoreVerb::Del ==> ignore_request(verb, name@) == SocialRequest::DelIgnore(name)@,
        verb == IgnoreVerb::Toggle ==> ignore_request(verb, name@) == SocialRequest::ToggleIgnore(
            name,
        )@,
        verb != other ==> ignore_request(verb, name@) != ignore_request(other, name@),
        !(ignore_request(verb, name@) is AddFriend),
        !(ignore_request(verb, name@) is RemoveFriendName),
{
}

} // verus!
