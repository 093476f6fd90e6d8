//! The state the UI script engine's verbs read and write: what the app pushes in (the zone's
//! channel catalog, the joined channels, the social snapshot) and what the verbs queue for the
//! app to drain (channel commands, social requests). The verbs themselves are methods on
//! [`UiScript`], in [`crate::channel`], [`crate::social`] and [`crate::tabard`].

use vstd::prelude::*;

use crate::channel::{ChannelCommand, ZoneChannelRow};
use crate::social::{SocialRequest, SocialState};

verus! {

/// The script engine's model: plain data the app pushes and the verbs answer from.
pub struct UiScript {
    /// The zone-channel catalog for the player's current zone.
    pub zone_channel_catalog: Vec<ZoneChannelRow>,
    /// Channel verbs called since the last drain, in call order.
    pub channel_commands: Vec<ChannelCommand>,
    /// The confirmed-joined channels: slot `i` is channel number `i + 1`, `None` a freed slot.
    pub joined_channels: Vec<Option<String>>,
    /// The social snapshot.
    pub social: SocialState,
    /// Social intents queued since the last drain, in call order.
    pub social_requests: Vec<SocialRequest>,
    /// The looking-for-group flag, client-side only.
    pub looking_for_group: bool,
}

impl UiScript {
    /// A fresh engine: no zone yet, no channels, the fresh-login social snapshot, nothing queued.
    pub fn new() -> (s: Self)
        ensures
            s.zone_channel_catalog@.len() == 0,
            s.channel_commands@.len() == 0,
            s.joined_channels@.len() == 0,
            s.social.is_fresh(),
            s.social_requests@.len() == 0,
            !s.looking_for_group,
    {
        UiScript {
            zone_channel_catalog: Vec::new(),
            channel_commands: Vec::new(),
            joined_channels: Vec::new(),
            social: SocialState::fresh(),
            social_requests: Vec::new(),
            looking_for_group: false,
        }
    }
}

} // verus!
