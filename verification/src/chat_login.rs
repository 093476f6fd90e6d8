//! The chat cache's login step: restored once per character into each live UI script VM, and
//! then the same sequence of hand-overs, events and channel re-joins whether or not a file was
//! found.
//!
//! The app keeps one [`ChatFileSession`] per VM (a fresh VM starts with a fresh one), asks it
//! [`ChatFileSession::claim`] whether this character still has to be restored into it, reads
//! the file and restores it with [`crate::chat_cache::restore`] when it does, and then performs
//! [`login_actions`] in order.

use vstd::prelude::*;

use crate::chat_cache::Parsed;
use crate::text::str_eq;

verus! {

/// What the login restore asks of the app, in order.
pub enum LoginAction {
    /// Hand the restored colour rows to the script.
    SetChatColors,
    /// Hand the restored window records to the script.
    SetChatWindowLooks,
    /// Fire `UPDATE_CHAT_WINDOWS` once.
    FireUpdateChatWindows,
    /// Fire `UPDATE_CHAT_COLOR` for every entry of the script's colour registry, in its order.
    FireUpdateChatColors,
    /// Send a join for this custom channel, with no password.
    JoinChannel(String),
}

/// A [`LoginAction`] with the channel name as characters.
pub enum LoginActionView {
    SetChatColors,
    SetChatWindowLooks,
    FireUpdateChatWindows,
    FireUpdateChatColors,
    JoinChannel(Seq<char>),
}

impl View for LoginAction {
    type V = LoginActionView;

    open spec fn view(&self) -> LoginActionView {
        match self {
            LoginAction::SetChatColors => LoginActionView::SetChatColors,
            LoginAction::SetChatWindowLooks => LoginActionView::SetChatWindowLooks,
            LoginAction::FireUpdateChatWindows => LoginActionView::FireUpdateChatWindows,
            LoginAction::FireUpdateChatColors => LoginActionView::FireUpdateChatColors,
            LoginAction::JoinChannel(n) => LoginActionView::JoinChannel(n@),
        }
    }
}

/// A list of actions by their views.
pub open spec fn actions_view(s: Seq<LoginAction>) -> Seq<LoginActionView> {
    s.map_values(|a: LoginAction| a@)
}

/// The login sequence: the colours, then the windows, handed to the script; `UPDATE_CHAT_WINDOWS`
/// once; `UPDATE_CHAT_COLOR` over the registry; then a join for each custom channel the file's
/// header lists, in its order.
pub open spec fn login_sequence(joined: Seq<Seq<char>>) -> Seq<LoginActionView> {
    seq![
        LoginActionView::SetChatColors,
        LoginActionView::SetChatWindowLooks,
        LoginActionView::FireUpdateChatWindows,
        LoginActionView::FireUpdateChatColors,
    ] + joined.map_values(|n: Seq<char>| LoginActionView::JoinChannel(n))
}

/// The actions that follow a restore of `parsed`, in order.
pub fn login_actions(parsed: &Parsed) -> (actions: Vec<LoginAction>)
    ensures
        actions_view(actions@) == login_sequence(parsed@.joined),
{
    let mut actions: Vec<LoginAction> = Vec::new();
    actions.push(LoginAction::SetChatColors);
    actions.push(LoginAction::SetChatWindowLooks);
    actions.push(LoginAction::FireUpdateChatWindows);
    actions.push(LoginAction::FireUpdateChatColors);
    let ghost head = actions_view(actions@);
    let mut i: usize = 0;
    while i < parsed.joined.len()
        invariant
            i <= parsed.joined@.len(),
            actions@.len() == 4 + i,
            actions_view(actions@) == login_sequence(parsed@.joined.take(i as int)),
        decreases parsed.joined@.len() - i,
    {
        let name = parsed.joined[i].clone();
        let ghost before = actions@;
        actions.push(LoginAction::JoinChannel(name));
        proof {
            let j = parsed@.joined;
            assert(j.take(i + 1) =~= j.take(i as int).push(j[i as int]));
            assert(actions_view(actions@) =~= actions_view(before).push(
                LoginActionView::JoinChannel(j[i as int]),
            ));
            assert(login_sequence(j.take(i + 1)) =~= login_sequence(j.take(i as int)).push(
                LoginActionView::JoinChannel(j[i as int]),
            ));
        }
        i = i + 1;
    }
    proof {
        assert(parsed@.joined.take(i as int) =~= parsed@.joined);
    }
    actions
}

/// The chat-cache state of one UI script VM: the character restored into it, and whether it
/// holds writes not yet saved.
pub struct ChatFileSession {
    identity: Option<(String, String)>,
    dirty: bool,
}

impl ChatFileSession {
    /// The `(realm, character)` restored into this VM, if any.
    pub closed spec fn restored_for(&self) -> Option<(Seq<char>, Seq<char>)> {
        match &self.identity {
            Some((r, c)) => Some((r@, c@)),
            None => None,
        }
    }

    /// Whether the VM holds writes not yet saved.
    pub closed spec fn is_dirty(&self) -> bool {
        self.dirty
    }

    /// A fresh VM's state: nobody restored, nothing to save.
    pub fn new() -> (s: Self)
        ensures
            s.restored_for() is None,
            !s.is_dirty(),
    {
        ChatFileSession { identity: None, dirty: false }
    }

    /// Whether `(realm, character)` still has to be restored into this VM. It does unless it
    /// already was; when it does, it is recorded as restored and the VM starts with nothing to
    /// save. Otherwise nothing changes.
    pub fn claim(&mut self, realm: &str, character: &str) -> (restore: bool)
        ensures
            restore == (old(self).restored_for() != Some((realm@, character@))),
            restore ==> final(self).restored_for() == Some((realm@, character@))
                && !final(self).is_dirty(),
            !restore ==> final(self).restored_for() == old(self).restored_for()
                && final(self).is_dirty() == old(self).is_dirty(),
    {
        let same = match &self.identity {
            Some((r, c)) => str_eq(r.as_str(), realm) && str_eq(c.as_str(), character),
            None => false,
        };
        if same {
            return false;
        }
        self.identity = Some((realm.to_owned(), character.to_owned()));
        self.dirty = false;
        true
    }

    /// A write from the script landed: the VM now has something to save.
    pub fn mark_dirty(&mut self)
        ensures
            final(self).is_dirty(),
            final(self).restored_for() == old(self).restored_for(),
    {
        self.dirty = true;
    }

    /// Whether the VM has something to save.
    pub fn dirty(&self) -> (b: bool)
        ensures
            b == self.is_dirty(),
    {
        self.dirty
    }

    /// The VM's file was written: nothing left to save.
    pub fn mark_saved(&mut self)
        ensures
            !final(self).is_dirty(),
            final(self).restored_for() == old(self).restored_for(),
    {
        self.dirty = false;
    }
}

} // verus!
