use benilla::channel::{ChannelCommand, ChannelKey, ChannelNameVerb, ChannelPairVerb, ZoneChannelRow};
use benilla::channel_slots::{ChannelState, SendType, MAX_CHANNELS};
use benilla::script::UiScript;

fn catalog() -> Vec<ZoneChannelRow> {
    vec![
        ZoneChannelRow {
            id: 1,
            shortcut: "General".into(),
            resolved: Some("General - Elwynn Forest".into()),
            listed: true,
        },
        ZoneChannelRow {
            id: 2,
            shortcut: "Trade".into(),
            resolved: None,
            listed: false,
        },
    ]
}

#[test]
fn join_channel_by_name_answers_the_three_legs_of_1908() {
    let mut s = UiScript::new();
    s.set_zone_channel_catalog(catalog());
    let a = s.join_channel_by_name(Some("General".into()), Some("pw".into()));
    let b = s.join_channel_by_name(Some("MyChan".into()), None);
    let c = s.join_channel_by_name(Some("Trade".into()), None);
    let d = s.join_channel_by_name(Some("two words".into()), None);
    assert_eq!(a, Some((1, Some("General - Elwynn Forest".to_string()))));
    assert_eq!(b, Some((0, None)), "0, and nothing after it");
    assert!(c.is_none(), "empty substitution");
    assert!(d.is_none(), "a space");
    assert_eq!(
        s.take_channel_commands(),
        vec![
            ChannelCommand::Join {
                name: "General - Elwynn Forest".into(),
                password: "pw".into()
            },
            ChannelCommand::Join {
                name: "MyChan".into(),
                password: String::new()
            },
        ],
        "sent on both non-nil legs, the resolved name for a row"
    );
}

#[test]
fn enumerate_server_channels_lists_the_shortcuts_the_zone_admits() {
    let mut s = UiScript::new();
    assert_eq!(s.enumerate_server_channels().len(), 0, "no zone yet — 0 values");
    s.set_zone_channel_catalog(catalog());
    assert_eq!(
        s.enumerate_server_channels(),
        vec!["General".to_string()],
        "the shortcut, never the composed name; a city row only in a city"
    );
}

#[test]
fn the_management_verbs_queue_in_call_order_and_drop_empty_names() {
    let mut s = UiScript::new();
    s.channel_name_verb(ChannelNameVerb::Leave, Some("General".into()));
    s.channel_name_verb(ChannelNameVerb::List, Some("".into()));
    s.list_channels();
    s.channel_pair_verb(ChannelPairVerb::SetPassword, Some("General".into()), Some("".into()));
    s.channel_pair_verb(ChannelPairVerb::Kick, Some("General".into()), Some("Bob".into()));
    s.channel_pair_verb(ChannelPairVerb::Kick, Some("General".into()), Some("".into()));
    s.channel_name_verb(ChannelNameVerb::Moderate, Some("General".into()));
    s.channel_name_verb(ChannelNameVerb::ToggleAnnouncements, Some("General".into()));
    s.channel_pair_verb(ChannelPairVerb::SetOwner, Some("General".into()), Some("Ann".into()));
    assert_eq!(
        s.take_channel_commands(),
        vec![
            ChannelCommand::Leave {
                name: "General".into()
            },
            ChannelCommand::ListAll,
            ChannelCommand::SetPassword {
                name: "General".into(),
                password: String::new()
            },
            ChannelCommand::Kick {
                name: "General".into(),
                player: "Bob".into()
            },
            ChannelCommand::Moderate {
                name: "General".into()
            },
            ChannelCommand::ToggleAnnouncements {
                name: "General".into()
            },
            ChannelCommand::SetOwner {
                name: "General".into(),
                player: "Ann".into()
            },
        ]
    );
}

fn joined() -> Vec<Option<String>> {
    vec![
        Some("General - Elwynn Forest".into()),
        None,
        Some("MyChan".into()),
    ]
}

#[test]
fn get_channel_name_answers_by_number_by_numeric_text_and_by_name() {
    let mut s = UiScript::new();
    s.set_joined_channels(joined());
    assert_eq!(
        s.get_channel_name(&ChannelKey::Index(3)),
        (3, Some("MyChan".to_string()), 0)
    );
    assert_eq!(
        s.get_channel_name(&ChannelKey::Text(" 1 ".into())),
        (1, Some("General - Elwynn Forest".to_string()), 0),
        "a number written as text is a number"
    );
    assert_eq!(
        s.get_channel_name(&ChannelKey::Text("mychan".into())),
        (3, Some("MyChan".to_string()), 0),
        "case-insensitively"
    );
    assert_eq!(s.get_channel_name(&ChannelKey::Index(2)), (0, None, 0), "a freed slot is not joined");
    assert_eq!(s.get_channel_name(&ChannelKey::Text("2".into())), (0, None, 0));
    assert_eq!(s.get_channel_name(&ChannelKey::Index(0)), (0, None, 0));
    assert_eq!(s.get_channel_name(&ChannelKey::Index(-1)), (0, None, 0));
    assert_eq!(s.get_channel_name(&ChannelKey::Index(4)), (0, None, 0));
    assert_eq!(s.get_channel_name(&ChannelKey::Text("Trade".into())), (0, None, 0));
    assert_eq!(s.get_channel_name(&ChannelKey::Text("+3".into())), (3, Some("MyChan".to_string()), 0));
    assert_eq!(s.get_channel_name(&ChannelKey::Other), (0, None, 0));
}

#[test]
fn get_channel_list_pairs_occupied_slots_with_the_numbers_get_channel_name_uses() {
    let mut s = UiScript::new();
    assert!(s.get_channel_list().is_empty(), "zero channels, zero returns");
    s.set_joined_channels(joined());
    let list = s.get_channel_list();
    assert_eq!(
        list,
        vec![
            (1, "General - Elwynn Forest".to_string()),
            (3, "MyChan".to_string())
        ]
    );
    for (n, name) in list {
        assert_eq!(s.get_channel_name(&ChannelKey::Index(n)), (n, Some(name), 0));
    }
}

#[test]
fn join_trims_and_folds_case_and_drops_blank_names() {
    let mut s = UiScript::new();
    s.set_zone_channel_catalog(catalog());
    assert_eq!(
        s.join_channel_by_name(Some("  general\t".into()), None),
        Some((1, Some("General - Elwynn Forest".to_string())))
    );
    assert_eq!(s.join_channel_by_name(Some("   ".into()), None), None);
    assert_eq!(s.join_channel_by_name(None, Some("pw".into())), None);
    assert_eq!(
        s.take_channel_commands(),
        vec![ChannelCommand::Join {
            name: "General - Elwynn Forest".into(),
            password: String::new()
        }]
    );
    assert!(s.take_channel_commands().is_empty());
}

#[test]
fn every_pair_verb_queues_its_own_command_with_trimmed_names() {
    let mut s = UiScript::new();
    for verb in [
        ChannelPairVerb::Ban,
        ChannelPairVerb::Invite,
        ChannelPairVerb::Moderator,
        ChannelPairVerb::Unmoderator,
        ChannelPairVerb::Mute,
        ChannelPairVerb::Unmute,
        ChannelPairVerb::Unban,
    ] {
        s.channel_pair_verb(verb, Some(" C ".into()), Some(" P ".into()));
    }
    s.channel_pair_verb(ChannelPairVerb::Ban, None, Some("P".into()));
    s.channel_name_verb(ChannelNameVerb::DisplayOwner, Some(" C".into()));
    s.channel_name_verb(ChannelNameVerb::Leave, None);
    assert_eq!(
        s.take_channel_commands(),
        vec![
            ChannelCommand::Ban { name: "C".into(), player: "P".into() },
            ChannelCommand::Invite { name: "C".into(), player: "P".into() },
            ChannelCommand::Moderator { name: "C".into(), player: "P".into() },
            ChannelCommand::Unmoderator { name: "C".into(), player: "P".into() },
            ChannelCommand::Mute { name: "C".into(), player: "P".into() },
            ChannelCommand::Unmute { name: "C".into(), player: "P".into() },
            ChannelCommand::Unban { name: "C".into(), player: "P".into() },
            ChannelCommand::DisplayOwner { name: "C".into() },
        ]
    );
}

#[test]
fn leaving_punches_a_hole_and_the_next_join_fills_it() {
    let mut c = ChannelState::new();
    assert_eq!(c.claim_slot("General"), Some(1));
    assert_eq!(c.claim_slot("Trade"), Some(2));
    assert_eq!(c.claim_slot("LocalDefense"), Some(3));
    assert_eq!(c.claim_slot("trade"), Some(2), "already joined: its own number");
    assert_eq!(c.free_slot("TRADE"), Some(2));
    assert_eq!(c.number_of("General"), Some(1));
    assert_eq!(c.number_of("LocalDefense"), Some(3), "the numbers above the hole stay");
    assert_eq!(c.number_of("Trade"), None);
    assert_eq!(c.free_slot("Trade"), None);
    assert_eq!(c.claim_slot("MyChan"), Some(2), "the first free slot is reused");
    assert_eq!(c.joined.len(), 3);
}

#[test]
fn the_eleventh_channel_is_refused() {
    let mut c = ChannelState::new();
    for i in 0..MAX_CHANNELS {
        assert_eq!(c.claim_slot(&format!("C{i}")), Some(i as u32 + 1));
    }
    assert_eq!(c.claim_slot("One Too Many"), None);
    assert_eq!(c.joined.len(), MAX_CHANNELS);
    assert_eq!(c.free_slot("c4"), Some(5));
    assert_eq!(c.claim_slot("One Too Many"), Some(5));
}

#[test]
fn send_tokens_are_the_uppercase_chat_type_keys() {
    assert_eq!(SendType::from_token("SAY"), Some(SendType::Say));
    assert_eq!(SendType::from_token("RAID_WARNING"), Some(SendType::RaidWarning));
    assert_eq!(SendType::from_token("BATTLEGROUND_LEADER"), Some(SendType::BattlegroundLeader));
    assert_eq!(SendType::from_token("CHANNEL"), Some(SendType::Channel));
    assert_eq!(SendType::from_token("say"), None, "exact tokens only");
    assert_eq!(SendType::from_token("AFK"), None);
    assert_eq!(SendType::from_token("DND"), None);
}

#[test]
fn a_joined_channel_is_stamped_with_its_number() {
    let mut s = ChannelState::new();
    s.claim_slot("General - Elwynn Forest");
    s.claim_slot("Trade - City");
    assert_eq!(
        s.stamp_channel("trade - city"),
        Some((2, "2. trade - city".to_string())),
        "the event's own spelling, behind the slot's number"
    );
    assert_eq!(s.stamp_channel("MyChan"), None, "not joined: nothing stamped");
    assert_eq!(s.stamp_channel(""), None);
    s.free_slot("General - Elwynn Forest");
    assert_eq!(s.stamp_channel("General - Elwynn Forest"), None);
    assert_eq!(s.stamp_channel("Trade - City"), Some((2, "2. Trade - City".to_string())));
}
