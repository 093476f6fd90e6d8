use benilla::script::UiScript;
use benilla::social::{FriendInfo, FriendKey, IgnoreVerb, SocialRequest, SocialState, WhoInfo};

#[test]
fn the_looking_for_group_flag_round_trips_with_the_references_arity() {
    let mut s = UiScript::new();
    assert_eq!(s.get_looking_for_group().len(), 4);
    assert_eq!(s.get_looking_for_group()[0], None);
    s.set_looking_for_group(true);
    assert_eq!(s.get_looking_for_group()[0], Some(1));
    s.set_looking_for_group(false);
    assert_eq!(s.get_looking_for_group()[0], None);
    assert!(s.take_social_requests().is_empty(), "nothing queued for the wire");
}

fn state() -> SocialState {
    SocialState {
        friends: vec![
            FriendInfo {
                name: "Ann".into(),
                level: 12,
                class: "Mage".into(),
                area: "Elwynn Forest".into(),
                connected: true,
                status: "<AFK>".into(),
            },
            FriendInfo { name: "Bob".into(), ..FriendInfo::default() },
        ],
        selected_friend: 0,
        ignores: vec!["Spammer".into()],
        selected_ignore: 0,
        who: vec![WhoInfo {
            name: "Cid".into(),
            guild: "G".into(),
            level: 60,
            race: "Night Elf".into(),
            class: "Druid".into(),
            zone: "Moonglade".into(),
        }],
        who_total: 132,
    }
}

#[test]
fn the_getters_read_the_snapshot_one_based() {
    let mut s = UiScript::new();
    assert_eq!(s.get_num_friends(), 0);
    s.set_social(state());
    assert_eq!(s.get_num_friends(), 2);
    assert_eq!(s.get_friend_info(1).map(|f| f.name.as_str()), Some("Ann"));
    assert_eq!(s.get_friend_info(2).map(|f| f.level), Some(0));
    assert!(s.get_friend_info(0).is_none() && s.get_friend_info(3).is_none());
    assert!(s.get_friend_info(i64::MIN).is_none());
    assert_eq!(s.get_num_ignores(), 1);
    assert_eq!(s.get_ignore_name(1).map(|n| n.as_str()), Some("Spammer"));
    assert!(s.get_ignore_name(2).is_none());
    assert_eq!(s.get_num_who_results(), (1, 132));
    assert_eq!(s.get_who_info(1).map(|w| w.race.as_str()), Some("Night Elf"));
    assert!(s.get_who_info(-4).is_none());
}

#[test]
fn selecting_clamps_to_the_list_and_queues_the_same_index() {
    let mut s = UiScript::new();
    s.set_social(state());
    s.set_selected_friend(2);
    assert_eq!(s.get_selected_friend(), 2, "read back in the same tick");
    s.set_selected_friend(3);
    assert_eq!(s.get_selected_friend(), 0, "past the end selects nothing");
    s.set_selected_ignore(1);
    assert_eq!(s.get_selected_ignore(), 1);
    s.set_selected_ignore(-1);
    assert_eq!(s.get_selected_ignore(), 0);
    assert_eq!(
        s.take_social_requests(),
        vec![
            SocialRequest::SelectFriend(2),
            SocialRequest::SelectFriend(0),
            SocialRequest::SelectIgnore(1),
            SocialRequest::SelectIgnore(0),
        ]
    );
}

#[test]
fn the_verbs_queue_in_call_order_and_drop_blank_names() {
    let mut s = UiScript::new();
    s.show_friends();
    s.add_friend("Dee".into());
    s.add_friend("  ".into());
    s.remove_friend(FriendKey::Index(2));
    s.remove_friend(FriendKey::Index(0));
    s.remove_friend(FriendKey::Name(" Eve".into()));
    s.remove_friend(FriendKey::Name("".into()));
    s.remove_friend(FriendKey::Other);
    s.ignore_verb(IgnoreVerb::Add, "Spammer".into());
    s.ignore_verb(IgnoreVerb::Del, "".into());
    s.ignore_verb(IgnoreVerb::Toggle, "Spammer".into());
    s.send_who(Some("n-Cid 60".into()));
    s.send_who(None);
    s.sort_who("level".into());
    s.set_who_to_ui(true);
    s.queue_social_request(SocialRequest::DelIgnore("Spammer".into()));
    assert_eq!(
        s.take_social_requests(),
        vec![
            SocialRequest::RefreshFriends,
            SocialRequest::AddFriend("Dee".into()),
            SocialRequest::RemoveFriendIndex(2),
            SocialRequest::RemoveFriendName(" Eve".into()),
            SocialRequest::AddIgnore("Spammer".into()),
            SocialRequest::ToggleIgnore("Spammer".into()),
            SocialRequest::Who("n-Cid 60".into()),
            SocialRequest::Who(String::new()),
            SocialRequest::SortWho("level".into()),
            SocialRequest::SetWhoToUi(true),
            SocialRequest::DelIgnore("Spammer".into()),
        ]
    );
    assert!(s.take_social_requests().is_empty());
}

#[test]
fn a_fresh_snapshot_is_empty() {
    assert_eq!(SocialState::fresh(), SocialState::default());
    let s = UiScript::new();
    assert_eq!(s.social, SocialState::default());
}
